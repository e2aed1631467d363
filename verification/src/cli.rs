//! The command line client: what a typed line means, and how what happens is shown.

use vstd::prelude::*;
use vstd::string::*;
use crate::common::{
    dm_name, hashed, AgentId, Command, Envelope, Event, Sender, SystemNotification, Topic,
};
use crate::completion::CompletionState;
use crate::conversation::{hex8, ConversationId};
use crate::daemon::agent_names;
use crate::ipc::{ClientRequest, CommandModel, RequestModel, ServerMessage};
use crate::orchestrator::{law_dm_is_for_its_sides, may_join};
use crate::path::said;
use crate::stamp::{show_time, time_shown};
use crate::text::{
    begins, join, joined, law_a_word_is_itself, law_every_part_occurs, law_only_the_white_space_around_goes, law_parts_occur,
    law_white_space_parts_words, lemma_word_len_is, occurs, occurs_at, quote, quoted, same,
    split_words, strip_prefix, texts, trim, trimmed, white, word_count, word_len, words,
};

verus! {

/// What the socket is after `args`, read from left to right. Words that are not known change
/// nothing, and neither does an option without its value.
pub open spec fn socket_after(socket: Seq<char>, args: Seq<Seq<char>>) -> Seq<char>
    decreases args.len(),
{
    if args.len() == 0 {
        socket
    } else if args[0] == "--socket"@ {
        if args.len() == 1 {
            socket
        } else {
            socket_after(args[1], args.skip(2))
        }
    } else {
        socket_after(socket, args.skip(1))
    }
}

/// Where the command line says that the daemon listens, without the name of the program.
pub fn parse_args(args: &Vec<String>) -> (r: String)
    ensures
        r@ == socket_after("/tmp/unicos.sock"@, texts(args@)),
{
    let mut socket = "/tmp/unicos.sock".to_owned();
    let ghost all = texts(args@);
    let mut i: usize = 0;
    assert(all.skip(0) =~= all);
    while i < args.len()
        invariant
            i <= args.len(),
            all == texts(args@),
            socket_after(socket@, all.skip(i as int)) == socket_after("/tmp/unicos.sock"@, all),
        decreases args.len() - i,
    {
        let ghost rest = all.skip(i as int);
        assert(rest[0] == args@[i as int]@);
        assert(rest.skip(1) =~= all.skip(i + 1));
        if same(args[i].as_str(), "--socket") {
            if i + 1 == args.len() {
                return socket;
            }
            assert(rest[1] == args@[i + 1]@);
            assert(rest.skip(2) =~= all.skip(i + 2));
            socket = args[i + 1].clone();
            i += 2;
        } else {
            i += 1;
        }
    }
    socket
}

/// Who the user is in direct messages.
pub fn user_dm_id() -> (r: &'static str)
    ensures
        r@ == "sudo"@,
{
    "sudo"
}

/// The texts around the line that is typed.
#[derive(Debug)]
pub struct UnicosPrompt {
    pub topic: String,
}

impl UnicosPrompt {
    /// What stands at the left: the current topic.
    pub fn render_prompt_left(&self) -> (r: String)
        ensures
            r@ == self.topic@ + " "@,
    {
        self.topic.clone().concat(" ")
    }

    /// What stands at the right.
    pub fn render_prompt_right(&self) -> (r: &'static str)
        ensures
            r@ == ""@,
    {
        ""
    }

    /// What stands before the typed text.
    pub fn render_prompt_indicator(&self) -> (r: &'static str)
        ensures
            r@ == "> "@,
    {
        "> "
    }

    /// What stands before each further line of the typed text.
    pub fn render_prompt_multiline_indicator(&self) -> (r: &'static str)
        ensures
            r@ == "... "@,
    {
        "... "
    }

    /// What stands before the text of a search.
    pub fn render_prompt_history_search_indicator(&self) -> (r: &'static str)
        ensures
            r@ == "search> "@,
    {
        "search> "
    }
}

/// What becomes of what was typed.
#[derive(Debug)]
pub enum EditorStep {
    /// The client ends.
    Quit,
    /// There is nothing to do.
    Ignore,
    /// This line is dealt with.
    Line(String),
}

/// What becomes of what was typed: it is dealt with, unless it is empty or one of the words
/// that end the client.
pub fn on_input(buffer: &str) -> (step: EditorStep)
    ensures
        ({
            let line = trimmed(buffer@);
            if line == "/quit"@ || line == "/exit"@ {
                step is Quit
            } else if line.len() == 0 {
                step is Ignore
            } else {
                step matches EditorStep::Line(l) && l@ == line
            }
        }),
{
    let line = trim(buffer);
    if same(line, "/quit") || same(line, "/exit") {
        EditorStep::Quit
    } else if line.is_empty() {
        EditorStep::Ignore
    } else {
        EditorStep::Line(line.to_owned())
    }
}

/// What is to be done for a line, one thing after the other.
#[derive(Debug)]
pub enum CliStep {
    /// Ask this of the daemon.
    Send(ClientRequest),
    /// Show this.
    Print(String),
}

/// What is to be done for a line.
#[verifier::ext_equal]
pub enum CliDeed {
    Send(RequestModel),
    Print(Seq<char>),
}

impl View for CliStep {
    type V = CliDeed;

    open spec fn view(&self) -> CliDeed {
        match *self {
            CliStep::Send(request) => CliDeed::Send(request@),
            CliStep::Print(text) => CliDeed::Print(text@),
        }
    }
}

/// What a list of steps comes to.
pub open spec fn deeds(steps: Seq<CliStep>) -> Seq<CliDeed> {
    steps.map_values(|s: CliStep| s@)
}

/// A command that is sent.
pub open spec fn ordering(cmd: CommandModel) -> CliDeed {
    CliDeed::Send(RequestModel::Command(cmd))
}

/// Words of the user that are sent, outside any conversation.
pub open spec fn speaking(topic: Seq<char>, text: Seq<char>) -> CliDeed {
    CliDeed::Send(
        RequestModel::Publish {
            topic,
            text,
            sender: Sender::UserSudo,
            conversation_id: hex8(0),
        },
    )
}

/// The topic of the direct messages with `peer`.
pub open spec fn dm_with(peer: Seq<char>) -> Seq<char> {
    dm_name("sudo"@, peer)
}

/// What follows the first white space in `s`, without the white space around it.
pub open spec fn behind_first_word(s: Seq<char>) -> Seq<char> {
    if word_len(s) < s.len() {
        trimmed(s.skip(word_len(s) as int + 1))
    } else {
        Seq::empty()
    }
}

/// What is to be done for a line that begins with an at sign, and goes on with `rest`: the
/// agent joins the direct messages, and is told what follows its name.
pub open spec fn dm_deeds(rest: Seq<char>) -> Seq<CliDeed> {
    let peer = rest.take(word_len(rest) as int);
    let text = behind_first_word(rest);
    if peer.len() > 0 && text.len() > 0 {
        seq![
            ordering(CommandModel::JoinTopic(peer, dm_with(peer))),
            speaking(dm_with(peer), text),
        ]
    } else {
        seq![CliDeed::Print("usage: @<AgentId> <text>"@)]
    }
}

/// What is to be done for a command that is one word.
pub open spec fn lone_deeds(rest: Seq<char>, word: Seq<char>) -> Seq<CliDeed> {
    if word == "ping"@ {
        seq![CliDeed::Send(RequestModel::Ping)]
    } else if word == "agents"@ {
        seq![CliDeed::Send(RequestModel::ListAgents)]
    } else if word == "spawn"@ {
        seq![CliDeed::Print("usage: /spawn <AgentId>"@)]
    } else if word == "kill"@ {
        seq![CliDeed::Print("usage: /kill <AgentId>"@)]
    } else if word == "purge"@ {
        seq![CliDeed::Print("usage: /purge <AgentId>  (then: /purge <AgentId> yes)"@)]
    } else if word == "join"@ {
        seq![CliDeed::Print("usage: /join <AgentId> <topic>"@)]
    } else if word == "sleep"@ {
        seq![CliDeed::Print("usage: /sleep <AgentId>"@)]
    } else if word == "wake"@ {
        seq![CliDeed::Print("usage: /wake <AgentId>"@)]
    } else if word == "topic"@ {
        seq![CliDeed::Print("usage: /topic <topic>"@)]
    } else if word == "dm"@ {
        seq![CliDeed::Print("usage: /dm <AgentId>"@)]
    } else {
        seq![CliDeed::Print("unknown command: /"@ + rest)]
    }
}

/// What is to be done for a command with one argument.
pub open spec fn pair_deeds(rest: Seq<char>, word: Seq<char>, arg: Seq<char>) -> Seq<CliDeed> {
    if word == "spawn"@ {
        seq![ordering(CommandModel::Spawn(arg)), CliDeed::Print("spawn requested: "@ + arg)]
    } else if word == "kill"@ {
        seq![ordering(CommandModel::Kill(arg)), CliDeed::Print("kill requested: "@ + arg)]
    } else if word == "purge"@ {
        seq![
            ordering(CommandModel::Purge(arg, false)),
            CliDeed::Print(
                "purge requested: "@ + arg + ". confirm with: /purge "@ + arg + " yes (within 30s)"@,
            ),
        ]
    } else if word == "sleep"@ {
        seq![ordering(CommandModel::Sleep(arg)), CliDeed::Print("sleep requested: "@ + arg)]
    } else if word == "wake"@ {
        seq![ordering(CommandModel::Wake(arg)), CliDeed::Print("wake requested: "@ + arg)]
    } else if word == "topic"@ {
        seq![CliDeed::Print("switched topic: "@ + hashed(arg))]
    } else if word == "dm"@ {
        seq![
            ordering(CommandModel::JoinTopic(arg, dm_with(arg))),
            CliDeed::Print("switched to dm with "@ + arg),
        ]
    } else {
        seq![CliDeed::Print("unknown command: /"@ + rest)]
    }
}

/// What is to be done for a command with two arguments.
pub open spec fn triple_deeds(
    rest: Seq<char>,
    word: Seq<char>,
    arg: Seq<char>,
    other: Seq<char>,
) -> Seq<CliDeed> {
    if word == "purge"@ && other == "yes"@ {
        seq![
            ordering(CommandModel::Purge(arg, true)),
            CliDeed::Print("purge confirm sent: "@ + arg),
        ]
    } else if word == "join"@ {
        seq![
            ordering(CommandModel::JoinTopic(arg, hashed(other))),
            CliDeed::Print("join requested: "@ + arg + " -> "@ + other),
        ]
    } else {
        seq![CliDeed::Print("unknown command: /"@ + rest)]
    }
}

/// What is to be done for a line that begins with a slash, and goes on with `rest`.
pub open spec fn command_deeds(rest: Seq<char>) -> Seq<CliDeed> {
    let parts = words(rest);
    if parts.len() == 1 {
        lone_deeds(rest, parts[0])
    } else if parts.len() == 2 {
        pair_deeds(rest, parts[0], parts[1])
    } else if parts.len() == 3 {
        triple_deeds(rest, parts[0], parts[1], parts[2])
    } else {
        seq![CliDeed::Print("unknown command: /"@ + rest)]
    }
}

/// What is to be done for a line, where `topic` is the current topic.
pub open spec fn line_deeds(topic: Seq<char>, line: Seq<char>) -> Seq<CliDeed> {
    if begins(line, "@"@) {
        dm_deeds(line.skip(1))
    } else if begins(line, "/"@) {
        command_deeds(line.skip(1))
    } else {
        seq![speaking(topic, line)]
    }
}

/// What the current topic is after a line.
pub open spec fn topic_after(topic: Seq<char>, line: Seq<char>) -> Seq<char> {
    let parts = words(line.skip(1));
    if begins(line, "/"@) && parts.len() == 2 && parts[0] == "topic"@ {
        hashed(parts[1])
    } else if begins(line, "/"@) && parts.len() == 2 && parts[0] == "dm"@ {
        dm_with(parts[1])
    } else {
        topic
    }
}

/// A list of one step.
fn one(step: CliStep) -> (r: Vec<CliStep>)
    ensures
        deeds(r@) == seq![step@],
{
    let mut out: Vec<CliStep> = Vec::new();
    out.push(step);
    assert(deeds(out@) =~= seq![step@]);
    out
}

/// A list of two steps.
fn two(first: CliStep, second: CliStep) -> (r: Vec<CliStep>)
    ensures
        deeds(r@) == seq![first@, second@],
{
    let mut out: Vec<CliStep> = Vec::new();
    out.push(first);
    out.push(second);
    assert(deeds(out@) =~= seq![first@, second@]);
    out
}

/// `text` is shown.
fn print(text: &str) -> (r: CliStep)
    ensures
        r@ == CliDeed::Print(text@),
{
    CliStep::Print(text.to_owned())
}

/// `text` is shown, with `name` behind it.
fn print_name(text: &str, name: &str) -> (r: CliStep)
    ensures
        r@ == CliDeed::Print(text@ + name@),
{
    CliStep::Print(text.to_owned().concat(name))
}

/// A command is sent.
fn order(cmd: Command) -> (r: CliStep)
    ensures
        r@ == ordering(cmd@),
{
    CliStep::Send(ClientRequest::Command { cmd })
}

/// Words of the user are sent.
fn speak(topic: Topic, text: &str) -> (r: CliStep)
    ensures
        r@ == speaking(topic@, text@),
{
    CliStep::Send(
        ClientRequest::Publish {
            topic,
            text: text.to_owned(),
            sender: Sender::UserSudo,
            conversation_id: ConversationId::default(),
        },
    )
}

/// What the client remembers from line to line.
#[derive(Debug)]
pub struct CliSession {
    topic: Topic,
}

impl View for CliSession {
    type V = Seq<char>;

    closed spec fn view(&self) -> Seq<char> {
        self.topic@
    }
}

impl CliSession {
    /// At first the user speaks in `#general`.
    pub fn new() -> (r: CliSession)
        ensures
            r@ == "#general"@,
    {
        proof {
            reveal_strlit("general");
            reveal_strlit("#general");
            assert(hashed("general"@) =~= "#general"@);
        }
        CliSession { topic: Topic::new("general") }
    }

    /// The texts around the line that is typed.
    pub fn prompt(&self) -> (r: UnicosPrompt)
        ensures
            r.topic@ == self@,
    {
        UnicosPrompt { topic: self.topic.to_string() }
    }

    /// What is to be done for a line that begins with an at sign, and goes on with `rest`.
    fn on_dm(rest: &str) -> (r: Vec<CliStep>)
        ensures
            deeds(r@) == dm_deeds(rest@),
    {
        let n: usize = word_count(rest);
        let total: usize = rest.unicode_len();
        let peer = rest.substring_char(0, n);
        let text = if n < total { trim(rest.substring_char(n + 1, total)) } else { "" };
        proof {
            reveal_strlit("");
            assert(peer@ =~= rest@.take(n as int));
            if n < total {
                assert(rest@.subrange(n + 1, total as int) =~= rest@.skip(n + 1));
            }
            assert(text@ =~= behind_first_word(rest@));
        }
        if peer.is_empty() || text.is_empty() {
            return one(print("usage: @<AgentId> <text>"));
        }
        let topic = Topic::dm(user_dm_id(), peer);
        two(
            order(Command::JoinTopic { id: AgentId::new(peer), topic: topic.clone() }),
            speak(topic, text),
        )
    }

    /// What is to be done for a command that is one word.
    fn on_lone(rest: &str, word: &str) -> (r: Vec<CliStep>)
        ensures
            deeds(r@) == lone_deeds(rest@, word@),
    {
        if same(word, "ping") {
            one(CliStep::Send(ClientRequest::Ping))
        } else if same(word, "agents") {
            one(CliStep::Send(ClientRequest::ListAgents))
        } else if same(word, "spawn") {
            one(print("usage: /spawn <AgentId>"))
        } else if same(word, "kill") {
            one(print("usage: /kill <AgentId>"))
        } else if same(word, "purge") {
            one(print("usage: /purge <AgentId>  (then: /purge <AgentId> yes)"))
        } else if same(word, "join") {
            one(print("usage: /join <AgentId> <topic>"))
        } else if same(word, "sleep") {
            one(print("usage: /sleep <AgentId>"))
        } else if same(word, "wake") {
            one(print("usage: /wake <AgentId>"))
        } else if same(word, "topic") {
            one(print("usage: /topic <topic>"))
        } else if same(word, "dm") {
            one(print("usage: /dm <AgentId>"))
        } else {
            one(print_name("unknown command: /", rest))
        }
    }

    /// What is to be done for a command with one argument.
    fn on_pair(rest: &str, word: &str, arg: &str) -> (r: Vec<CliStep>)
        ensures
            deeds(r@) == pair_deeds(rest@, word@, arg@),
    {
        let id = AgentId::new(arg);
        if same(word, "spawn") {
            two(order(Command::Spawn { id }), print_name("spawn requested: ", arg))
        } else if same(word, "kill") {
            two(order(Command::Kill { id }), print_name("kill requested: ", arg))
        } else if same(word, "purge") {
            let told = "purge requested: ".to_owned().concat(arg).concat(
                ". confirm with: /purge ",
            ).concat(arg).concat(" yes (within 30s)");
            two(order(Command::Purge { id, confirm: false }), CliStep::Print(told))
        } else if same(word, "sleep") {
            two(order(Command::Sleep { id }), print_name("sleep requested: ", arg))
        } else if same(word, "wake") {
            two(order(Command::Wake { id }), print_name("wake requested: ", arg))
        } else if same(word, "topic") {
            one(print_name("switched topic: ", Topic::new(arg).as_str()))
        } else if same(word, "dm") {
            let topic = Topic::dm(user_dm_id(), arg);
            two(order(Command::JoinTopic { id, topic }), print_name("switched to dm with ", arg))
        } else {
            one(print_name("unknown command: /", rest))
        }
    }

    /// What is to be done for a command with two arguments.
    fn on_triple(rest: &str, word: &str, arg: &str, other: &str) -> (r: Vec<CliStep>)
        ensures
            deeds(r@) == triple_deeds(rest@, word@, arg@, other@),
    {
        let id = AgentId::new(arg);
        if same(word, "purge") && same(other, "yes") {
            two(order(Command::Purge { id, confirm: true }), print_name("purge confirm sent: ", arg))
        } else if same(word, "join") {
            let told = "join requested: ".to_owned().concat(arg).concat(" -> ").concat(other);
            two(order(Command::JoinTopic { id, topic: Topic::new(other) }), CliStep::Print(told))
        } else {
            one(print_name("unknown command: /", rest))
        }
    }

    /// What is to be done for a line.
    pub fn on_line(&mut self, line: &str) -> (r: Vec<CliStep>)
        ensures
            deeds(r@) == line_deeds(old(self)@, line@),
            final(self)@ == topic_after(old(self)@, line@),
    {
        proof {
            reveal_strlit("@");
            reveal_strlit("/");
            if begins(line@, "@"@) {
                assert(line@.take(1)[0] == '@');
            }
            if begins(line@, "/"@) {
                assert(line@.take(1)[0] == '/');
            }
        }
        match strip_prefix(line, "@") {
            Some(rest) => {
                return Self::on_dm(rest);
            },
            None => {},
        }
        match strip_prefix(line, "/") {
            Some(rest) => {
                let parts = split_words(rest);
                assert(texts(parts@).len() == parts.len());
                if parts.len() == 1 {
                    let word = parts[0].as_str();
                    assert(word@ == texts(parts@)[0]);
                    Self::on_lone(rest, word)
                } else if parts.len() == 2 {
                    let word = parts[0].as_str();
                    let arg = parts[1].as_str();
                    assert(word@ == texts(parts@)[0]);
                    assert(arg@ == texts(parts@)[1]);
                    if same(word, "topic") {
                        self.topic = Topic::new(arg);
                    } else if same(word, "dm") {
                        self.topic = Topic::dm(user_dm_id(), arg);
                    }
                    Self::on_pair(rest, word, arg)
                } else if parts.len() == 3 {
                    let word = parts[0].as_str();
                    let arg = parts[1].as_str();
                    let other = parts[2].as_str();
                    assert(word@ == texts(parts@)[0]);
                    assert(arg@ == texts(parts@)[1]);
                    assert(other@ == texts(parts@)[2]);
                    Self::on_triple(rest, word, arg, other)
                } else {
                    one(print_name("unknown command: /", rest))
                }
            },
            None => one(speak(self.topic.clone(), line)),
        }
    }
}

/// Whatever is typed, the current topic begins with a hash sign.
pub proof fn law_current_topic_keeps_its_hash(topic: Seq<char>, line: Seq<char>)
    requires
        begins(topic, "#"@),
    ensures
        begins(topic_after(topic, line), "#"@),
{
    reveal_strlit("#");
    reveal_strlit("#dm:");
    let after = topic_after(topic, line);
    if after != topic {
        assert(after[0] == '#');
        assert(after.take(1) =~= "#"@);
    }
}

/// What begins neither with an at sign nor with a slash is said in the current topic as it
/// is, and nothing else is done.
pub proof fn law_plain_text_is_said(topic: Seq<char>, line: Seq<char>)
    requires
        line.len() > 0,
        line[0] != '@',
        line[0] != '/',
    ensures
        line_deeds(topic, line) == seq![speaking(topic, line)],
        topic_after(topic, line) == topic,
{
    reveal_strlit("@");
    reveal_strlit("/");
    assert(line.take(1)[0] == line[0]);
    assert("@"@[0] == '@');
    assert("/"@[0] == '/');
}

/// No line but one that ends in the word `yes` confirms a purge.
pub proof fn law_only_yes_confirms_a_purge(topic: Seq<char>, line: Seq<char>, id: Seq<char>)
    requires
        line_deeds(topic, line).contains(ordering(CommandModel::Purge(id, true))),
    ensures
        begins(line, "/"@),
        words(line.skip(1)) == seq!["purge"@, id, "yes"@],
{
    let parts = words(line.skip(1));
    let sent = line_deeds(topic, line);
    let i = choose|i: int|
        0 <= i < sent.len() && sent[i] == ordering(CommandModel::Purge(id, true));
    assert(sent[i] == ordering(CommandModel::Purge(id, true)));
    assert(i == 0 || i == 1);
    assert(parts =~= seq!["purge"@, id, "yes"@]);
}

/// The agent that the user turns to can always join the direct messages with it.
pub proof fn law_dm_of_the_user_can_be_joined(peer: Seq<char>)
    requires
        peer.len() > 0,
    ensures
        may_join(peer, dm_with(peer)),
{
    reveal_strlit("sudo");
    assert(!"sudo"@.contains(':'));
    law_dm_is_for_its_sides("sudo"@, peer, peer);
}

/// What a notification is about besides its agent.
pub open spec fn detail_of(n: SystemNotification) -> Seq<char> {
    match n {
        SystemNotification::AgentPanicked { message, .. } => message@,
        SystemNotification::AgentJoinedTopic { topic, .. } => topic@,
        _ => Seq::empty(),
    }
}

/// The agent that a notification is about.
pub open spec fn subject_of(n: SystemNotification) -> Seq<char> {
    match n {
        SystemNotification::AgentSpawned { id } => id@,
        SystemNotification::AgentKilled { id } => id@,
        SystemNotification::AgentPurged { id } => id@,
        SystemNotification::AgentPanicked { id, .. } => id@,
        SystemNotification::AgentJoinedTopic { id, .. } => id@,
        SystemNotification::AgentSlept { id } => id@,
        SystemNotification::AgentWoke { id } => id@,
    }
}

/// How a notification is written, where `id` is the literal of its agent and `detail` that of
/// what else it is about.
pub open spec fn notice_text(n: SystemNotification, id: Seq<char>, detail: Seq<char>) -> Seq<char> {
    match n {
        SystemNotification::AgentSpawned { .. } => "AgentSpawned { id: AgentId("@ + id + ") }"@,
        SystemNotification::AgentKilled { .. } => "AgentKilled { id: AgentId("@ + id + ") }"@,
        SystemNotification::AgentPurged { .. } => "AgentPurged { id: AgentId("@ + id + ") }"@,
        SystemNotification::AgentPanicked { .. } => "AgentPanicked { id: AgentId("@ + id
            + "), message: "@ + detail + " }"@,
        SystemNotification::AgentJoinedTopic { .. } => "AgentJoinedTopic { id: AgentId("@ + id
            + "), topic: Topic("@ + detail + ") }"@,
        SystemNotification::AgentSlept { .. } => "AgentSlept { id: AgentId("@ + id + ") }"@,
        SystemNotification::AgentWoke { .. } => "AgentWoke { id: AgentId("@ + id + ") }"@,
    }
}

/// The agent that a notification is about.
fn subject(n: &SystemNotification) -> (r: &str)
    ensures
        r@ == subject_of(*n),
{
    match n {
        SystemNotification::AgentSpawned { id } => id.as_str(),
        SystemNotification::AgentKilled { id } => id.as_str(),
        SystemNotification::AgentPurged { id } => id.as_str(),
        SystemNotification::AgentPanicked { id, .. } => id.as_str(),
        SystemNotification::AgentJoinedTopic { id, .. } => id.as_str(),
        SystemNotification::AgentSlept { id } => id.as_str(),
        SystemNotification::AgentWoke { id } => id.as_str(),
    }
}

/// What a notification is about besides its agent.
fn detail(n: &SystemNotification) -> (r: &str)
    ensures
        r@ == detail_of(*n),
{
    match n {
        SystemNotification::AgentPanicked { message, .. } => message.as_str(),
        SystemNotification::AgentJoinedTopic { topic, .. } => topic.as_str(),
        _ => {
            proof {
                reveal_strlit("");
                assert(""@ =~= Seq::<char>::empty());
            }
            ""
        },
    }
}

/// How a notification is written, where `id` is the literal of its agent and `detail` that of
/// what else it is about.
pub fn write_notice(n: &SystemNotification, id: &str, detail: &str) -> (r: String)
    ensures
        r@ == notice_text(*n, id@, detail@),
{
    match n {
        SystemNotification::AgentSpawned { .. } => "AgentSpawned { id: AgentId(".to_owned().concat(
            id,
        ).concat(") }"),
        SystemNotification::AgentKilled { .. } => "AgentKilled { id: AgentId(".to_owned().concat(
            id,
        ).concat(") }"),
        SystemNotification::AgentPurged { .. } => "AgentPurged { id: AgentId(".to_owned().concat(
            id,
        ).concat(") }"),
        SystemNotification::AgentPanicked { .. } => {
            "AgentPanicked { id: AgentId(".to_owned().concat(id).concat("), message: ").concat(
                detail,
            ).concat(" }")
        },
        SystemNotification::AgentJoinedTopic { .. } => {
            "AgentJoinedTopic { id: AgentId(".to_owned().concat(id).concat(
                "), topic: Topic(",
            ).concat(detail).concat(") }")
        },
        SystemNotification::AgentSlept { .. } => "AgentSlept { id: AgentId(".to_owned().concat(
            id,
        ).concat(") }"),
        SystemNotification::AgentWoke { .. } => "AgentWoke { id: AgentId(".to_owned().concat(
            id,
        ).concat(") }"),
    }
}

/// The line that shows an event, where `time` is how its moment is shown, and `id` and
/// `detail` are the literals in a notification. Commands are not shown.
pub open spec fn event_line(
    env: Envelope<Event>,
    time: Seq<char>,
    id: Seq<char>,
    detail: Seq<char>,
) -> Option<Seq<char>> {
    match env.payload {
        Event::Message(m) => Some(
            time + " "@ + env.topic@ + " "@ + env.sender.shown() + " "@ + m.text@,
        ),
        Event::SystemNotification(n) => Some(
            time + " "@ + env.topic@ + " [SystemNotice] "@ + notice_text(n, id, detail),
        ),
        Event::Command(_) => None,
    }
}

/// The line that shows an event.
pub open spec fn shown_event(env: Envelope<Event>) -> Option<Seq<char>> {
    let (id, detail) = match env.payload {
        Event::SystemNotification(n) => (quoted(subject_of(n)), quoted(detail_of(n))),
        _ => (Seq::empty(), Seq::empty()),
    };
    event_line(env, time_shown(env.ts.secs, env.ts.nanos), id, detail)
}

/// The line that shows an event, by the texts that stand in it.
pub fn write_event(env: &Envelope<Event>, time: &str, id: &str, detail: &str) -> (r: Option<String>)
    ensures
        said(r) == event_line(*env, time@, id@, detail@),
{
    match &env.payload {
        Event::Message(m) => Some(
            time.to_owned().concat(" ").concat(env.topic.as_str()).concat(" ").concat(
                env.sender.label().as_str(),
            ).concat(" ").concat(m.text.as_str()),
        ),
        Event::SystemNotification(n) => Some(
            time.to_owned().concat(" ").concat(env.topic.as_str()).concat(
                " [SystemNotice] ",
            ).concat(write_notice(n, id, detail).as_str()),
        ),
        Event::Command(_) => None,
    }
}

/// The line that shows an event. Commands are not shown.
pub fn format_event(env: &Envelope<Event>) -> (r: Option<String>)
    requires
        env.ts.datable(),
    ensures
        said(r) == shown_event(*env),
{
    let time = show_time(env.ts);
    match &env.payload {
        Event::SystemNotification(n) => {
            let id = quote(subject(n));
            let about = quote(detail(n));
            write_event(env, time.as_str(), id.as_str(), about.as_str())
        },
        _ => {
            proof {
                reveal_strlit("");
                assert(""@ =~= Seq::<char>::empty());
            }
            write_event(env, time.as_str(), "", "")
        },
    }
}

/// The line that shows what the daemon tells.
pub open spec fn shown_message(msg: ServerMessage) -> Option<Seq<char>> {
    match msg {
        ServerMessage::Event { envelope } => shown_event(envelope),
        ServerMessage::Pong => Some("Pong"@),
        ServerMessage::Agents { ids } => Some("agents: "@ + joined(agent_names(ids@), ", "@)),
        ServerMessage::Error { message } => Some("[daemon error] "@ + message@),
    }
}

/// Takes note of what the daemon tells, and gives the line that shows it.
pub fn on_server_message(state: &mut CompletionState, msg: &ServerMessage) -> (r: Option<String>)
    requires
        old(state).wf(),
        msg matches ServerMessage::Event { envelope } ==> envelope.ts.datable(),
    ensures
        final(state).wf(),
        final(state)@ == match *msg {
            ServerMessage::Event { envelope } => old(state)@.heard(
                envelope.topic@,
                envelope.payload,
            ),
            _ => old(state)@,
        },
        said(r) == shown_message(*msg),
{
    match msg {
        ServerMessage::Event { envelope } => {
            state.note_event(envelope);
            format_event(envelope)
        },
        ServerMessage::Pong => Some("Pong".to_owned()),
        ServerMessage::Agents { ids } => {
            let mut names: Vec<String> = Vec::new();
            let mut i: usize = 0;
            while i < ids.len()
                invariant
                    i <= ids.len(),
                    names.len() == i,
                    forall|j: int| 0 <= j < i ==> #[trigger] names@[j]@ == ids@[j]@,
                decreases ids.len() - i,
            {
                names.push(ids[i].to_string());
                i += 1;
            }
            assert(texts(names@) =~= agent_names(ids@));
            Some("agents: ".to_owned().concat(join(&names, ", ").as_str()))
        },
        ServerMessage::Error { message } => Some(
            "[daemon error] ".to_owned().concat(message.as_str()),
        ),
    }
}

/// The line that shows a message of the daemon that could not be understood, for the reason
/// `why`.
pub fn bad_server_message(why: &str, line: &str) -> (r: String)
    ensures
        r@ == "bad server message: "@ + why@ + ": "@ + line@,
{
    "bad server message: ".to_owned().concat(why).concat(": ").concat(line)
}

proof fn lemma_no_white(w: Seq<char>)
    requires
        w == "spawn"@ || w == "kill"@ || w == "purge"@ || w == "join"@ || w == "sleep"@ || w
            == "wake"@ || w == "topic"@ || w == "dm"@ || w == "yes"@,
    ensures
        w.len() > 0,
        forall|i: int| 0 <= i < w.len() ==> !white(#[trigger] w[i]),
{
    reveal_strlit("spawn");
    reveal_strlit("kill");
    reveal_strlit("purge");
    reveal_strlit("join");
    reveal_strlit("sleep");
    reveal_strlit("wake");
    reveal_strlit("topic");
    reveal_strlit("dm");
    reveal_strlit("yes");
    assert forall|i: int| 0 <= i < w.len() implies !white(#[trigger] w[i]) by {
        assert('a' <= w[i] <= 'z');
    }
}

/// The words of a slash, a command and its argument.
proof fn lemma_typed_pair(front: Seq<char>, w: Seq<char>, a: Seq<char>)
    requires
        front == "/"@ + w + " "@,
        w.len() > 0,
        forall|i: int| 0 <= i < w.len() ==> !white(#[trigger] w[i]),
        a.len() > 0,
        forall|i: int| 0 <= i < a.len() ==> !white(#[trigger] a[i]),
    ensures
        begins(front + a, "/"@),
        !begins(front + a, "@"@),
        words((front + a).skip(1)) == seq![w, a],
{
    reveal_strlit("/");
    reveal_strlit("@");
    reveal_strlit(" ");
    let line = front + a;
    assert(" "@ =~= seq![' ']);
    assert(line.take(1) =~= "/"@);
    assert(line.take(1)[0] == '/');
    assert("@"@[0] == '@');
    assert(line.skip(1) =~= w + seq![' '] + a);
    law_white_space_parts_words(w, ' ', a);
    law_a_word_is_itself(w);
    law_a_word_is_itself(a);
    assert(words(line.skip(1)) =~= seq![w, a]);
}

/// The words of a slash, a command and its two arguments.
proof fn lemma_typed_triple(front: Seq<char>, w: Seq<char>, a: Seq<char>, b: Seq<char>)
    requires
        front == "/"@ + w + " "@,
        w.len() > 0,
        forall|i: int| 0 <= i < w.len() ==> !white(#[trigger] w[i]),
        a.len() > 0,
        forall|i: int| 0 <= i < a.len() ==> !white(#[trigger] a[i]),
        b.len() > 0,
        forall|i: int| 0 <= i < b.len() ==> !white(#[trigger] b[i]),
    ensures
        begins(front + a + " "@ + b, "/"@),
        !begins(front + a + " "@ + b, "@"@),
        words((front + a + " "@ + b).skip(1)) == seq![w, a, b],
{
    lemma_typed_pair(front, w, a);
    reveal_strlit("/");
    reveal_strlit("@");
    reveal_strlit(" ");
    let line = front + a + " "@ + b;
    assert(" "@ =~= seq![' ']);
    assert(line.take(1) =~= "/"@);
    assert(line.take(1)[0] == '/');
    assert("@"@[0] == '@');
    let shorter = (front + a).skip(1);
    assert(line.skip(1) =~= shorter + seq![' '] + b);
    law_white_space_parts_words(shorter, ' ', b);
    law_a_word_is_itself(b);
    assert(words(line.skip(1)) =~= seq![w, a, b]);
}

/// The literals that lines with commands begin with.
proof fn lemma_fronts()
    ensures
        "/spawn "@ == "/"@ + "spawn"@ + " "@,
        "/kill "@ == "/"@ + "kill"@ + " "@,
        "/purge "@ == "/"@ + "purge"@ + " "@,
        "/sleep "@ == "/"@ + "sleep"@ + " "@,
        "/wake "@ == "/"@ + "wake"@ + " "@,
        "/topic "@ == "/"@ + "topic"@ + " "@,
        "/dm "@ == "/"@ + "dm"@ + " "@,
        "/join "@ == "/"@ + "join"@ + " "@,
{
    reveal_strlit("/");
    reveal_strlit(" ");
    reveal_strlit("spawn");
    reveal_strlit("/spawn ");
    reveal_strlit("kill");
    reveal_strlit("/kill ");
    reveal_strlit("purge");
    reveal_strlit("/purge ");
    reveal_strlit("sleep");
    reveal_strlit("/sleep ");
    reveal_strlit("wake");
    reveal_strlit("/wake ");
    reveal_strlit("topic");
    reveal_strlit("/topic ");
    reveal_strlit("dm");
    reveal_strlit("/dm ");
    reveal_strlit("join");
    reveal_strlit("/join ");
    assert("/spawn "@ =~= "/"@ + "spawn"@ + " "@);
    assert("/kill "@ =~= "/"@ + "kill"@ + " "@);
    assert("/purge "@ =~= "/"@ + "purge"@ + " "@);
    assert("/sleep "@ =~= "/"@ + "sleep"@ + " "@);
    assert("/wake "@ =~= "/"@ + "wake"@ + " "@);
    assert("/topic "@ =~= "/"@ + "topic"@ + " "@);
    assert("/dm "@ =~= "/"@ + "dm"@ + " "@);
    assert("/join "@ =~= "/"@ + "join"@ + " "@);
}

/// No two of the words for commands are the same.
proof fn lemma_words_differ()
    ensures
        "spawn"@ != "kill"@ && "spawn"@ != "purge"@ && "spawn"@ != "sleep"@ && "spawn"@ != "wake"@
            && "spawn"@ != "topic"@ && "spawn"@ != "dm"@ && "spawn"@ != "join"@,
        "kill"@ != "purge"@ && "kill"@ != "sleep"@ && "kill"@ != "wake"@ && "kill"@ != "topic"@
            && "kill"@ != "dm"@ && "kill"@ != "join"@,
        "purge"@ != "sleep"@ && "purge"@ != "wake"@ && "purge"@ != "topic"@ && "purge"@ != "dm"@
            && "purge"@ != "join"@,
        "sleep"@ != "wake"@ && "sleep"@ != "topic"@ && "sleep"@ != "dm"@ && "sleep"@ != "join"@,
        "wake"@ != "topic"@ && "wake"@ != "dm"@ && "wake"@ != "join"@,
        "topic"@ != "dm"@ && "topic"@ != "join"@ && "dm"@ != "join"@,
{
    reveal_strlit("spawn");
    reveal_strlit("kill");
    reveal_strlit("purge");
    reveal_strlit("sleep");
    reveal_strlit("wake");
    reveal_strlit("topic");
    reveal_strlit("dm");
    reveal_strlit("join");
    assert("spawn"@[1] == 'p' && "purge"@[1] == 'u' && "sleep"@[1] == 'l' && "topic"@[1] == 'o');
    assert("kill"@[0] == 'k' && "wake"@[0] == 'w' && "join"@[0] == 'j' && "dm"@[0] == 'd');
    assert("spawn"@[0] == 's' && "purge"@[0] == 'p' && "sleep"@[0] == 's' && "topic"@[0] == 't');
}

/// A command that is typed with the name of an agent is sent for that agent, and nothing else is
/// sent; a purge is only asked for. What is typed next goes to the same topic as before.
pub proof fn law_typed_commands_are_sent(topic: Seq<char>, name: Seq<char>)
    requires
        name.len() > 0,
        forall|i: int| 0 <= i < name.len() ==> !white(#[trigger] name[i]),
    ensures
        line_deeds(topic, "/spawn "@ + name) == seq![
            CliDeed::Send(RequestModel::Command(CommandModel::Spawn(name))),
            CliDeed::Print("spawn requested: "@ + name),
        ],
        line_deeds(topic, "/kill "@ + name) == seq![
            CliDeed::Send(RequestModel::Command(CommandModel::Kill(name))),
            CliDeed::Print("kill requested: "@ + name),
        ],
        line_deeds(topic, "/purge "@ + name) == seq![
            CliDeed::Send(RequestModel::Command(CommandModel::Purge(name, false))),
            CliDeed::Print(
                "purge requested: "@ + name + ". confirm with: /purge "@ + name
                    + " yes (within 30s)"@,
            ),
        ],
        line_deeds(topic, "/sleep "@ + name) == seq![
            CliDeed::Send(RequestModel::Command(CommandModel::Sleep(name))),
            CliDeed::Print("sleep requested: "@ + name),
        ],
        line_deeds(topic, "/wake "@ + name) == seq![
            CliDeed::Send(RequestModel::Command(CommandModel::Wake(name))),
            CliDeed::Print("wake requested: "@ + name),
        ],
        topic_after(topic, "/spawn "@ + name) == topic,
        topic_after(topic, "/kill "@ + name) == topic,
        topic_after(topic, "/purge "@ + name) == topic,
        topic_after(topic, "/sleep "@ + name) == topic,
        topic_after(topic, "/wake "@ + name) == topic,
{
    lemma_fronts();
    lemma_words_differ();
    lemma_no_white("spawn"@);
    lemma_no_white("kill"@);
    lemma_no_white("purge"@);
    lemma_no_white("sleep"@);
    lemma_no_white("wake"@);
    lemma_typed_pair("/spawn "@, "spawn"@, name);
    lemma_typed_pair("/kill "@, "kill"@, name);
    lemma_typed_pair("/purge "@, "purge"@, name);
    lemma_typed_pair("/sleep "@, "sleep"@, name);
    lemma_typed_pair("/wake "@, "wake"@, name);
}

/// Two more words behind a command: a purge is confirmed by the word for it, and an agent joins
/// the topic of that name.
pub proof fn law_typed_commands_with_two_arguments_are_sent(
    topic: Seq<char>,
    name: Seq<char>,
    other: Seq<char>,
)
    requires
        name.len() > 0,
        forall|i: int| 0 <= i < name.len() ==> !white(#[trigger] name[i]),
        other.len() > 0,
        forall|i: int| 0 <= i < other.len() ==> !white(#[trigger] other[i]),
    ensures
        line_deeds(topic, "/purge "@ + name + " "@ + "yes"@) == seq![
            CliDeed::Send(RequestModel::Command(CommandModel::Purge(name, true))),
            CliDeed::Print("purge confirm sent: "@ + name),
        ],
        line_deeds(topic, "/join "@ + name + " "@ + other).len() == 2,
        line_deeds(topic, "/join "@ + name + " "@ + other)[0] == CliDeed::Send(
            RequestModel::Command(
                CommandModel::JoinTopic(
                    name,
                    if other[0] == '#' {
                        other
                    } else {
                        seq!['#'] + other
                    },
                ),
            ),
        ),
        line_deeds(topic, "/join "@ + name + " "@ + other)[1] == CliDeed::Print(
            "join requested: "@ + name + " -> "@ + other,
        ),
        other != "yes"@ ==> line_deeds(topic, "/purge "@ + name + " "@ + other).len() == 1
            && line_deeds(topic, "/purge "@ + name + " "@ + other)[0] is Print,
        topic_after(topic, "/join "@ + name + " "@ + other) == topic,
{
    lemma_fronts();
    lemma_words_differ();
    lemma_no_white("purge"@);
    lemma_no_white("join"@);
    lemma_no_white("yes"@);
    lemma_typed_triple("/purge "@, "purge"@, name, "yes"@);
    lemma_typed_triple("/purge "@, "purge"@, name, other);
    lemma_typed_triple("/join "@, "join"@, name, other);
}

/// After the user turned to a topic, or to an agent, what is typed is said there, word for word;
/// the agent is called in.
pub proof fn law_turning_to_a_topic_moves_the_talk(
    topic: Seq<char>,
    name: Seq<char>,
    line: Seq<char>,
)
    requires
        name.len() > 0,
        forall|i: int| 0 <= i < name.len() ==> !white(#[trigger] name[i]),
        line.len() > 0,
        line[0] != '@',
        line[0] != '/',
    ensures
        line_deeds(topic_after(topic, "/topic "@ + name), line) == seq![
            CliDeed::Send(
                RequestModel::Publish {
                    topic: if name[0] == '#' {
                        name
                    } else {
                        seq!['#'] + name
                    },
                    text: line,
                    sender: Sender::UserSudo,
                    conversation_id: "00000000"@,
                },
            ),
        ],
        line_deeds(topic_after(topic, "/dm "@ + name), line) == seq![
            CliDeed::Send(
                RequestModel::Publish {
                    topic: "#dm:sudo:"@ + name,
                    text: line,
                    sender: Sender::UserSudo,
                    conversation_id: "00000000"@,
                },
            ),
        ],
        line_deeds(topic, "/dm "@ + name) == seq![
            CliDeed::Send(
                RequestModel::Command(CommandModel::JoinTopic(name, "#dm:sudo:"@ + name)),
            ),
            CliDeed::Print("switched to dm with "@ + name),
        ],
        line_deeds(topic, "/topic "@ + name) == seq![
            CliDeed::Print(
                "switched topic: "@ + if name[0] == '#' {
                    name
                } else {
                    seq!['#'] + name
                },
            ),
        ],
{
    lemma_fronts();
    lemma_words_differ();
    lemma_no_white("topic"@);
    lemma_no_white("dm"@);
    lemma_typed_pair("/topic "@, "topic"@, name);
    lemma_typed_pair("/dm "@, "dm"@, name);
    law_plain_text_is_said(topic_after(topic, "/topic "@ + name), line);
    law_plain_text_is_said(topic_after(topic, "/dm "@ + name), line);
    lemma_no_conversation();
    lemma_dm_topic(name);
}

proof fn lemma_no_conversation()
    ensures
        hex8(0) == "00000000"@,
{
    reveal_strlit("00000000");
    assert(hex8(0) =~= "00000000"@);
}

proof fn lemma_dm_topic(name: Seq<char>)
    ensures
        dm_with(name) == "#dm:sudo:"@ + name,
{
    reveal_strlit("#dm:");
    reveal_strlit("sudo");
    reveal_strlit(":");
    reveal_strlit("#dm:sudo:");
    assert("#dm:"@ + "sudo"@ + ":"@ =~= "#dm:sudo:"@);
    assert(dm_with(name) =~= "#dm:sudo:"@ + name);
}

/// What is typed behind an at sign and a name is said to that agent alone, word for word but for
/// the white space around it, and the agent is called in before; the current topic stays.
pub proof fn law_words_behind_a_name_go_to_that_agent(
    topic: Seq<char>,
    peer: Seq<char>,
    front: Seq<char>,
    text: Seq<char>,
    back: Seq<char>,
)
    requires
        peer.len() > 0,
        forall|i: int| 0 <= i < peer.len() ==> !white(#[trigger] peer[i]),
        forall|i: int| 0 <= i < front.len() ==> white(#[trigger] front[i]),
        forall|i: int| 0 <= i < back.len() ==> white(#[trigger] back[i]),
        text.len() > 0,
        !white(text[0]),
        !white(text.last()),
    ensures
        line_deeds(topic, "@"@ + peer + " "@ + (front + text + back)) == seq![
            CliDeed::Send(
                RequestModel::Command(CommandModel::JoinTopic(peer, "#dm:sudo:"@ + peer)),
            ),
            CliDeed::Send(
                RequestModel::Publish {
                    topic: "#dm:sudo:"@ + peer,
                    text,
                    sender: Sender::UserSudo,
                    conversation_id: "00000000"@,
                },
            ),
        ],
        topic_after(topic, "@"@ + peer + " "@ + (front + text + back)) == topic,
{
    reveal_strlit("@");
    reveal_strlit("/");
    reveal_strlit(" ");
    let said = front + text + back;
    let line = "@"@ + peer + " "@ + said;
    let rest = line.skip(1);
    assert(" "@ =~= seq![' ']);
    assert(line.take(1) =~= "@"@);
    assert(line.take(1)[0] == '@');
    assert("/"@[0] == '/');
    assert(rest =~= peer + seq![' '] + said);
    assert forall|i: int| 0 <= i < peer.len() implies !white(#[trigger] rest[i]) by {
        assert(rest[i] == peer[i]);
    }
    assert(rest[peer.len() as int] == ' ');
    lemma_word_len_is(rest, peer.len() as int);
    assert(rest.take(peer.len() as int) =~= peer);
    assert(rest.skip(peer.len() as int + 1) =~= said);
    law_only_the_white_space_around_goes(front, text, back);
    lemma_no_conversation();
    lemma_dm_topic(peer);
}

/// A message is shown with its moment, its topic, who said it, and every word of it.
pub proof fn law_what_is_said_is_shown(
    env: Envelope<Event>,
    m: crate::common::Message,
    time: &str,
    id: &str,
    detail: &str,
    line: Option<String>,
)
    requires
        call_ensures(write_event, (&env, time, id, detail), line),
        env.payload == Event::Message(m),
    ensures
        line matches Some(l) && l@ == time@ + " "@ + env.topic@ + " "@ + match env.sender {
            Sender::UserSudo => "[User: sudo]"@,
            Sender::Agent(from) => "[Unic: "@ + from@ + "]"@,
            Sender::System => "[System]"@,
        } + " "@ + m.text@,
{
}

/// A notice is shown with its moment, its topic, the agent that it is about, and what else it
/// tells: why an agent panicked, and which topic was joined. Commands are not shown.
pub proof fn law_notices_are_shown(
    env: Envelope<Event>,
    n: SystemNotification,
    time: &str,
    id: &str,
    detail: &str,
    line: Option<String>,
)
    requires
        call_ensures(write_event, (&env, time, id, detail), line),
    ensures
        line is None <==> env.payload is Command,
        env.payload == Event::SystemNotification(n) ==> {
            &&& line matches Some(l)
            &&& begins(l@, time@ + " "@ + env.topic@ + " [SystemNotice] "@)
            &&& occurs(l@, "AgentId("@ + id@ + ")"@)
            &&& n is AgentPanicked ==> occurs(l@, "AgentPanicked"@) && occurs(
                l@,
                "message: "@ + detail@,
            )
            &&& n is AgentJoinedTopic ==> occurs(l@, "AgentJoinedTopic"@) && occurs(
                l@,
                "Topic("@ + detail@ + ")"@,
            )
            &&& n is AgentSpawned ==> occurs(l@, "AgentSpawned"@)
            &&& n is AgentKilled ==> occurs(l@, "AgentKilled"@)
            &&& n is AgentPurged ==> occurs(l@, "AgentPurged"@)
            &&& n is AgentSlept ==> occurs(l@, "AgentSlept"@)
            &&& n is AgentWoke ==> occurs(l@, "AgentWoke"@)
        },
{
    if env.payload == Event::SystemNotification(n) {
        let l = line->0@;
        let head = time@ + " "@ + env.topic@ + " [SystemNotice] "@;
        law_parts_occur(Seq::empty(), head, notice_text(n, id@, detail@));
        assert(l == head + notice_text(n, id@, detail@));
        lemma_notice(head, n, id@, detail@);
    }
}

/// Where the parts of a notice stand.
proof fn lemma_notice(head: Seq<char>, n: SystemNotification, id: Seq<char>, detail: Seq<char>)
    ensures
        ({
            let l = head + notice_text(n, id, detail);
            &&& occurs(l, "AgentId("@ + id + ")"@)
            &&& n is AgentPanicked ==> occurs(l, "AgentPanicked"@) && occurs(l, "message: "@ + detail)
            &&& n is AgentJoinedTopic ==> occurs(l, "AgentJoinedTopic"@) && occurs(
                l,
                "Topic("@ + detail + ")"@,
            )
            &&& n is AgentSpawned ==> occurs(l, "AgentSpawned"@)
            &&& n is AgentKilled ==> occurs(l, "AgentKilled"@)
            &&& n is AgentPurged ==> occurs(l, "AgentPurged"@)
            &&& n is AgentSlept ==> occurs(l, "AgentSlept"@)
            &&& n is AgentWoke ==> occurs(l, "AgentWoke"@)
        }),
{
    reveal_strlit("AgentId(");
    reveal_strlit(")");
    reveal_strlit(") }");
    match n {
        SystemNotification::AgentSpawned { .. } => {
            reveal_strlit("AgentSpawned { id: AgentId(");
            reveal_strlit("AgentSpawned");
            assert("AgentSpawned { id: AgentId("@.take("AgentSpawned"@.len() as int) =~= "AgentSpawned"@);
            assert("AgentSpawned { id: AgentId("@.skip("AgentSpawned { id: AgentId("@.len() - 8) =~= "AgentId("@);
            lemma_opening(head, "AgentSpawned { id: AgentId("@, "AgentSpawned"@, id, ") }"@);
        },
        SystemNotification::AgentKilled { .. } => {
            reveal_strlit("AgentKilled { id: AgentId(");
            reveal_strlit("AgentKilled");
            assert("AgentKilled { id: AgentId("@.take("AgentKilled"@.len() as int) =~= "AgentKilled"@);
            assert("AgentKilled { id: AgentId("@.skip("AgentKilled { id: AgentId("@.len() - 8) =~= "AgentId("@);
            lemma_opening(head, "AgentKilled { id: AgentId("@, "AgentKilled"@, id, ") }"@);
        },
        SystemNotification::AgentPurged { .. } => {
            reveal_strlit("AgentPurged { id: AgentId(");
            reveal_strlit("AgentPurged");
            assert("AgentPurged { id: AgentId("@.take("AgentPurged"@.len() as int) =~= "AgentPurged"@);
            assert("AgentPurged { id: AgentId("@.skip("AgentPurged { id: AgentId("@.len() - 8) =~= "AgentId("@);
            lemma_opening(head, "AgentPurged { id: AgentId("@, "AgentPurged"@, id, ") }"@);
        },
        SystemNotification::AgentSlept { .. } => {
            reveal_strlit("AgentSlept { id: AgentId(");
            reveal_strlit("AgentSlept");
            assert("AgentSlept { id: AgentId("@.take("AgentSlept"@.len() as int) =~= "AgentSlept"@);
            assert("AgentSlept { id: AgentId("@.skip("AgentSlept { id: AgentId("@.len() - 8) =~= "AgentId("@);
            lemma_opening(head, "AgentSlept { id: AgentId("@, "AgentSlept"@, id, ") }"@);
        },
        SystemNotification::AgentWoke { .. } => {
            reveal_strlit("AgentWoke { id: AgentId(");
            reveal_strlit("AgentWoke");
            assert("AgentWoke { id: AgentId("@.take("AgentWoke"@.len() as int) =~= "AgentWoke"@);
            assert("AgentWoke { id: AgentId("@.skip("AgentWoke { id: AgentId("@.len() - 8) =~= "AgentId("@);
            lemma_opening(head, "AgentWoke { id: AgentId("@, "AgentWoke"@, id, ") }"@);
        },
        SystemNotification::AgentPanicked { .. } => {
            reveal_strlit("AgentPanicked { id: AgentId(");
            reveal_strlit("AgentPanicked");
            reveal_strlit("), message: ");
            reveal_strlit("message: ");
            reveal_strlit(" }");
            let tail = "), message: "@ + detail + " }"@;
            assert("AgentPanicked { id: AgentId("@.take("AgentPanicked"@.len() as int) =~= "AgentPanicked"@);
            assert("AgentPanicked { id: AgentId("@.skip("AgentPanicked { id: AgentId("@.len() - 8) =~= "AgentId("@);
            lemma_opening(head, "AgentPanicked { id: AgentId("@, "AgentPanicked"@, id, tail);
            let l = head + notice_text(n, id, detail);
            let open = "AgentPanicked { id: AgentId("@;
            assert(l =~= head + (open + id + tail));
            let front = head + open + id + "), "@;
            reveal_strlit("), ");
            assert("), message: "@ =~= "), "@ + "message: "@);
            assert(l =~= front + ("message: "@ + detail) + " }"@);
            law_parts_occur(front, "message: "@ + detail, " }"@);
        },
        SystemNotification::AgentJoinedTopic { .. } => {
            reveal_strlit("AgentJoinedTopic { id: AgentId(");
            reveal_strlit("AgentJoinedTopic");
            reveal_strlit("), topic: Topic(");
            reveal_strlit("Topic(");
            let tail = "), topic: Topic("@ + detail + ") }"@;
            assert("AgentJoinedTopic { id: AgentId("@.take("AgentJoinedTopic"@.len() as int) =~= "AgentJoinedTopic"@);
            assert("AgentJoinedTopic { id: AgentId("@.skip("AgentJoinedTopic { id: AgentId("@.len() - 8) =~= "AgentId("@);
            lemma_opening(head, "AgentJoinedTopic { id: AgentId("@, "AgentJoinedTopic"@, id, tail);
            let l = head + notice_text(n, id, detail);
            let open = "AgentJoinedTopic { id: AgentId("@;
            assert(l =~= head + (open + id + tail));
            let front = head + open + id + "), topic: "@;
            reveal_strlit("), topic: ");
            reveal_strlit(" }");
            assert("), topic: Topic("@ =~= "), topic: "@ + "Topic("@);
            assert(") }"@ =~= ")"@ + " }"@);
            assert(l =~= front + ("Topic("@ + detail + ")"@) + " }"@);
            law_parts_occur(front, "Topic("@ + detail + ")"@, " }"@);
        },
    }
}

proof fn lemma_opening(
    head: Seq<char>,
    open: Seq<char>,
    kind: Seq<char>,
    id: Seq<char>,
    tail: Seq<char>,
)
    requires
        begins(open, kind),
        open.len() >= 8,
        open.skip(open.len() - 8) == "AgentId("@,
        tail.len() > 0,
        tail[0] == ')',
    ensures
        occurs(head + (open + id + tail), kind),
        occurs(head + (open + id + tail), "AgentId("@ + id + ")"@),
{
    reveal_strlit(")");
    let l = head + (open + id + tail);
    let k = kind.len() as int;
    assert(open =~= kind + open.skip(k));
    assert(l =~= head + kind + (open.skip(k) + id + tail));
    law_parts_occur(head, kind, open.skip(k) + id + tail);
    let front = head + open.take(open.len() - 8);
    let middle = "AgentId("@ + id + ")"@;
    assert(open =~= open.take(open.len() - 8) + "AgentId("@);
    assert(tail =~= ")"@ + tail.skip(1));
    assert(l =~= front + middle + tail.skip(1));
    law_parts_occur(front, middle, tail.skip(1));
}

/// Every agent that the daemon lists is shown, and what went wrong is shown in full.
pub proof fn law_answers_of_the_daemon_are_shown(ids: Vec<AgentId>, i: int, message: String)
    requires
        0 <= i < ids@.len(),
    ensures
        shown_message(ServerMessage::Agents { ids }) matches Some(l) && begins(l, "agents: "@)
            && occurs(l, ids@[i]@),
        shown_message(ServerMessage::Error { message }) == Some("[daemon error] "@ + message@),
        shown_message(ServerMessage::Pong) == Some("Pong"@),
{
    let names = agent_names(ids@);
    let list = joined(names, ", "@);
    assert(names[i] == ids@[i]@);
    law_every_part_occurs(names, ", "@, i);
    let k = choose|k: int| #[trigger] occurs_at(list, names[i], k);
    assert(list =~= list.take(k) + names[i] + list.skip(k + names[i].len()));
    let head = "agents: "@;
    law_parts_occur(Seq::empty(), head, list);
    assert(head + list =~= (head + list.take(k)) + names[i] + list.skip(k + names[i].len()));
    law_parts_occur(head + list.take(k), names[i], list.skip(k + names[i].len()));
}

/// What is typed counts without the white space around it: the words for it end the client, and
/// all else that says something is dealt with, word for word.
pub proof fn law_typed_lines_are_dealt_with(
    buffer: &str,
    front: Seq<char>,
    middle: Seq<char>,
    back: Seq<char>,
    step: EditorStep,
)
    requires
        call_ensures(on_input, (buffer,), step),
        buffer@ == front + middle + back,
        forall|i: int| 0 <= i < front.len() ==> white(#[trigger] front[i]),
        forall|i: int| 0 <= i < back.len() ==> white(#[trigger] back[i]),
        middle.len() > 0 ==> !white(middle[0]) && !white(middle.last()),
    ensures
        step is Quit <==> middle == "/quit"@ || middle == "/exit"@,
        step is Ignore <==> middle.len() == 0,
        step matches EditorStep::Line(l) ==> l@ == middle,
{
    law_only_the_white_space_around_goes(front, middle, back);
    reveal_strlit("/quit");
    reveal_strlit("/exit");
}

/// The client looks for the daemon where the command line says last, and where it says nothing at
/// the usual place.
pub proof fn law_the_socket_is_read_word_by_word(
    socket: Seq<char>,
    value: Seq<char>,
    word: Seq<char>,
    rest: Seq<Seq<char>>,
)
    requires
        word != "--socket"@,
    ensures
        socket_after(socket, seq!["--socket"@, value] + rest) == socket_after(value, rest),
        socket_after(socket, seq![word] + rest) == socket_after(socket, rest),
        socket_after(socket, Seq::empty()) == socket,
{
    assert((seq!["--socket"@, value] + rest).skip(2) =~= rest);
    assert((seq![word] + rest).skip(1) =~= rest);
}

/// An event is shown at its own moment, and a notice with the name of its agent and, where it
/// tells more, with that.
pub proof fn law_events_are_shown_at_their_moment(
    env: Envelope<Event>,
    m: crate::common::Message,
    id: AgentId,
    message: String,
    joined_topic: Topic,
    line: Option<String>,
)
    requires
        call_ensures(format_event, (&env,), line),
    ensures
        line is None <==> env.payload is Command,
        line matches Some(l) ==> begins(
            l@,
            time_shown(env.ts.secs, env.ts.nanos) + " "@ + env.topic@ + " "@,
        ),
        env.payload == Event::Message(m) ==> (line matches Some(l) && l@ == time_shown(
            env.ts.secs,
            env.ts.nanos,
        ) + " "@ + env.topic@ + " "@ + env.sender.shown() + " "@ + m.text@),
        env.payload == Event::SystemNotification(SystemNotification::AgentSpawned { id })
            || env.payload == Event::SystemNotification(SystemNotification::AgentKilled { id })
            || env.payload == Event::SystemNotification(SystemNotification::AgentPurged { id })
            || env.payload == Event::SystemNotification(SystemNotification::AgentSlept { id })
            || env.payload == Event::SystemNotification(SystemNotification::AgentWoke { id }) ==> (
        line matches Some(l) && occurs(l@, "AgentId("@ + quoted(id@) + ")"@)),
        env.payload == Event::SystemNotification(SystemNotification::AgentPanicked { id, message })
            ==> (line matches Some(l) && occurs(l@, "AgentId("@ + quoted(id@) + ")"@) && occurs(
            l@,
            "message: "@ + quoted(message@),
        )),
        env.payload == Event::SystemNotification(
            SystemNotification::AgentJoinedTopic { id, topic: joined_topic },
        ) ==> (line matches Some(l) && occurs(l@, "AgentId("@ + quoted(id@) + ")"@) && occurs(
            l@,
            "Topic("@ + quoted(joined_topic@) + ")"@,
        )),
{
    let time = time_shown(env.ts.secs, env.ts.nanos);
    let head = time + " "@ + env.topic@ + " "@;
    if let Event::Message(said) = env.payload {
        let tail = env.sender.shown() + " "@ + said.text@;
        law_parts_occur(Seq::empty(), head, tail);
        assert(head + tail =~= line->0@);
    }
    if let Event::SystemNotification(n) = env.payload {
        reveal_strlit(" [SystemNotice] ");
        reveal_strlit("[SystemNotice] ");
        reveal_strlit(" ");
        let text = notice_text(n, quoted(subject_of(n)), quoted(detail_of(n)));
        assert(" [SystemNotice] "@ =~= " "@ + "[SystemNotice] "@);
        assert(line->0@ =~= head + ("[SystemNotice] "@ + text));
        law_parts_occur(Seq::empty(), head, "[SystemNotice] "@ + text);
        lemma_notice(
            time + " "@ + env.topic@ + " [SystemNotice] "@,
            n,
            quoted(subject_of(n)),
            quoted(detail_of(n)),
        );
    }
}

/// A word behind a slash that is no command is told to be unknown, and nothing is sent; a command
/// without its argument is told how to be used. Two commands stand alone.
pub proof fn law_lone_words_send_nothing_else(topic: Seq<char>, word: Seq<char>)
    requires
        word.len() > 0,
        forall|i: int| 0 <= i < word.len() ==> !white(#[trigger] word[i]),
    ensures
        ({
            let line = "/"@ + word;
            let done = line_deeds(topic, line);
            &&& done.len() == 1
            &&& word == "ping"@ ==> done[0] == CliDeed::Send(RequestModel::Ping)
            &&& word == "agents"@ ==> done[0] == CliDeed::Send(RequestModel::ListAgents)
            &&& word != "ping"@ && word != "agents"@ ==> done[0] is Print
            &&& word != "ping"@ && word != "agents"@ && word != "spawn"@ && word != "kill"@ && word
                != "purge"@ && word != "join"@ && word != "sleep"@ && word != "wake"@ && word
                != "topic"@ && word != "dm"@ ==> done[0] == CliDeed::Print(
                "unknown command: /"@ + word,
            )
            &&& topic_after(topic, line) == topic
        }),
{
    reveal_strlit("/");
    reveal_strlit("@");
    reveal_strlit("ping");
    reveal_strlit("agents");
    let line = "/"@ + word;
    assert(line.take(1) =~= "/"@);
    assert(line.take(1)[0] == '/');
    assert("@"@[0] == '@');
    assert(line.skip(1) =~= word);
    law_a_word_is_itself(word);
    assert("ping"@.len() != "agents"@.len());
}

/// A name behind an at sign with nothing to say sends nothing.
pub proof fn law_a_name_alone_sends_nothing(topic: Seq<char>, peer: Seq<char>)
    requires
        forall|i: int| 0 <= i < peer.len() ==> !white(#[trigger] peer[i]),
    ensures
        line_deeds(topic, "@"@ + peer).len() == 1,
        line_deeds(topic, "@"@ + peer)[0] is Print,
{
    reveal_strlit("@");
    let line = "@"@ + peer;
    assert(line.take(1) =~= "@"@);
    assert(line.skip(1) =~= peer);
    lemma_word_len_is(peer, peer.len() as int);
}

/// The current topic changes only where the user turns to another one.
pub proof fn law_only_turning_changes_the_topic(topic: Seq<char>, line: Seq<char>)
    requires
        topic_after(topic, line) != topic,
    ensures
        begins(line, "/"@),
        words(line.skip(1)).len() == 2,
        words(line.skip(1))[0] == "topic"@ || words(line.skip(1))[0] == "dm"@,
{
}

/// The client looks for the daemon at the usual place where its command line is empty, and where
/// the command line says otherwise.
pub proof fn law_the_client_finds_the_daemon(args: Vec<String>, socket: String)
    requires
        call_ensures(parse_args, (&args,), socket),
    ensures
        args@.len() == 0 ==> socket@ == "/tmp/unicos.sock"@,
        args@.len() == 2 && args@[0]@ == "--socket"@ ==> socket@ == args@[1]@,
{
    let all = texts(args@);
    assert(all.len() == args@.len());
    if args@.len() == 2 && args@[0]@ == "--socket"@ {
        let none = Seq::<Seq<char>>::empty();
        assert(all =~= seq!["--socket"@, args@[1]@] + none);
        reveal_strlit("--socket");
        reveal_strlit("");
        assert(""@.len() == 0);
        law_the_socket_is_read_word_by_word("/tmp/unicos.sock"@, args@[1]@, ""@, none);
    }
}

/// The line begins with the current topic, and what cannot be understood is shown with the reason
/// and as it came.
pub proof fn law_the_prompt_shows_the_topic(
    session: CliSession,
    prompt: UnicosPrompt,
    left: String,
    why: &str,
    line: &str,
    shown: String,
)
    requires
        call_ensures(CliSession::prompt, (&session,), prompt),
        call_ensures(UnicosPrompt::render_prompt_left, (&prompt,), left),
        call_ensures(bad_server_message, (why, line), shown),
    ensures
        left@ == session@ + " "@,
        shown@ == "bad server message: "@ + why@ + ": "@ + line@,
{
}

} // verus!
