//! What clients and the daemon tell each other.

use vstd::prelude::*;
use crate::common::{AgentId, Command, Envelope, Event, Sender, Topic};
use crate::conversation::ConversationId;

verus! {

/// What a client asks of the daemon.
#[derive(Clone, Debug)]
pub enum ClientRequest {
    Ping,
    ListAgents,
    Publish { topic: Topic, text: String, sender: Sender, conversation_id: ConversationId },
    Command { cmd: Command },
}

/// What the daemon tells a client.
#[derive(Clone, Debug)]
pub enum ServerMessage {
    Pong,
    Agents { ids: Vec<AgentId> },
    Error { message: String },
    Event { envelope: Envelope<Event> },
}

/// What a command says.
#[verifier::ext_equal]
pub enum CommandModel {
    Spawn(Seq<char>),
    Kill(Seq<char>),
    Purge(Seq<char>, bool),
    JoinTopic(Seq<char>, Seq<char>),
    Sleep(Seq<char>),
    Wake(Seq<char>),
    SetUserTopic(Seq<char>),
}

impl View for Command {
    type V = CommandModel;

    open spec fn view(&self) -> CommandModel {
        match *self {
            Command::Spawn { id } => CommandModel::Spawn(id@),
            Command::Kill { id } => CommandModel::Kill(id@),
            Command::Purge { id, confirm } => CommandModel::Purge(id@, confirm),
            Command::JoinTopic { id, topic } => CommandModel::JoinTopic(id@, topic@),
            Command::Sleep { id } => CommandModel::Sleep(id@),
            Command::Wake { id } => CommandModel::Wake(id@),
            Command::SetUserTopic { topic } => CommandModel::SetUserTopic(topic@),
        }
    }
}

/// What a request says.
#[verifier::ext_equal]
pub enum RequestModel {
    Ping,
    ListAgents,
    Publish { topic: Seq<char>, text: Seq<char>, sender: Sender, conversation_id: Seq<char> },
    Command(CommandModel),
}

impl View for ClientRequest {
    type V = RequestModel;

    open spec fn view(&self) -> RequestModel {
        match *self {
            ClientRequest::Ping => RequestModel::Ping,
            ClientRequest::ListAgents => RequestModel::ListAgents,
            ClientRequest::Publish { topic, text, sender, conversation_id } => RequestModel::Publish {
                topic: topic@,
                text: text@,
                sender,
                conversation_id: conversation_id@,
            },
            ClientRequest::Command { cmd } => RequestModel::Command(cmd@),
        }
    }
}

} // verus!
