//! Answering through a `/responses` server: what is sent, what is read out of the
//! reply, and when a call is tried again.

use vstd::arithmetic::power2::{lemma2_to64, lemma_pow2_strictly_increases, lemma_pow2_unfold, pow2};
use vstd::prelude::*;
use vstd::string::*;
use crate::common::{ChatMessage, ChatRole, Envelope, Message, Perception, Sender, UnicError};
use crate::json::{
    array, fields_model, items_model, json_in, law_the_first_field_counts, object, parse_json, put,
    Json, JsonModel,
};
use crate::llm::last_user_text;
use crate::text::{
    ascii_uppercase, begins, blank, boundary, byte_len, bytes_in, char_index, chars_before, contains,
    is_blank, joined, law_a_bare_text_is_left_as_it_is, law_joining_loses_nothing,
    law_only_the_white_space_around_goes, law_parts_occur, occurs, occurs_at, offset, starts_with,
    trim, trim_back_char, trimmed, upper, white, without_back,
};

verus! {

/// A provider behind a `/responses` server.
#[derive(Clone, Debug)]
pub struct ResponsesProvider {
    pub base_url: String,
    pub api_key_env: String,
    pub api_key: Option<String>,
    pub model: String,
    pub timeout_ms: u64,
    pub max_retries: usize,
}

/// How a role is called in a prompt.
pub open spec fn role_name(role: ChatRole) -> Seq<char> {
    match role {
        ChatRole::System => "system"@,
        ChatRole::User => "user"@,
        ChatRole::Assistant => "assistant"@,
        ChatRole::Tool => "tool"@,
    }
}

/// A line of a prompt: the role, and what is said without the white space around it.
pub open spec fn prompt_line(m: ChatMessage) -> Seq<char> {
    role_name(m.role) + ": "@ + trimmed(m.content@)
}

/// A prompt as one text, a line for each message.
pub open spec fn prompt_text(prompt: Seq<ChatMessage>) -> Seq<char> {
    joined(prompt.map_values(|m: ChatMessage| prompt_line(m)), "\n"@)
}

/// What the doorkeeper is told to do: the model that decides whether an agent responds.
pub open spec fn gate_orders() -> Seq<char> {
    "You are a decision gate for an autonomous agent.\n"@
        + "Decide whether the agent should respond to the latest user message.\n"@
        + "Output exactly YES or NO (no extra words).\n"@
        + "Do NOT output the agent's actual reply.\n"@
}

/// How a sender is called before the doorkeeper.
pub open spec fn sender_role(sender: Sender) -> Seq<char> {
    match sender {
        Sender::UserSudo => "user"@,
        Sender::Agent(_) => "assistant"@,
        Sender::System => "system"@,
    }
}

/// A line of the recent messages before the doorkeeper.
pub open spec fn gate_line(m: Envelope<Message>) -> Seq<char> {
    sender_role(m.sender) + ": "@ + trimmed(m.payload.text@) + "\n"@
}

/// The recent messages before the doorkeeper, a line for each.
pub open spec fn gate_lines(recent: Seq<Envelope<Message>>) -> Seq<char>
    decreases recent.len(),
{
    if recent.len() == 0 {
        Seq::empty()
    } else {
        gate_lines(recent.drop_last()) + gate_line(recent.last())
    }
}

/// The soul of the agent before the doorkeeper, where it has one.
pub open spec fn gate_soul(soul: Seq<char>) -> Seq<char> {
    if blank(soul) {
        Seq::empty()
    } else {
        "AGENT_SOUL:\n"@ + trimmed(soul) + "\n\n"@
    }
}

/// What the doorkeeper is asked.
pub open spec fn gate_question(soul: Seq<char>, recent: Seq<Envelope<Message>>) -> Seq<char> {
    gate_soul(soul) + "RECENT_MESSAGES:\n"@ + gate_lines(recent)
        + "\nQuestion: Should the agent respond now? Answer YES or NO.\n"@
}

/// A message of a `/responses` input.
pub open spec fn input_message(role: Seq<char>, content: Seq<char>) -> JsonModel {
    JsonModel::Object(
        seq![("role"@, JsonModel::Text(role)), ("content"@, JsonModel::Text(content))],
    )
}

/// What the doorkeeper is sent.
pub open spec fn gate_input(soul: Seq<char>, recent: Seq<Envelope<Message>>) -> JsonModel {
    JsonModel::Array(
        seq![
            input_message("system"@, gate_orders()),
            input_message("user"@, gate_question(soul, recent)),
        ],
    )
}

/// What one part of a reply says.
pub open spec fn part_text(part: JsonModel) -> Seq<char> {
    let kind = match part.member("type"@) {
        Some(v) => v.text(),
        None => None,
    };
    let said = match part.member("text"@) {
        Some(v) => v.text(),
        None => None,
    };
    if (kind == Some("output_text"@) || kind == Some("text"@)) && said is Some {
        said->0
    } else {
        Seq::empty()
    }
}

/// What the parts of a reply say, one after the other.
pub open spec fn parts_text(parts: Seq<JsonModel>) -> Seq<char>
    decreases parts.len(),
{
    if parts.len() == 0 {
        Seq::empty()
    } else {
        parts_text(parts.drop_last()) + part_text(parts.last())
    }
}

/// What one item of a reply says.
pub open spec fn item_text(item: JsonModel) -> Seq<char> {
    match item.member("content"@) {
        Some(JsonModel::Array(parts)) => parts_text(parts),
        _ => Seq::empty(),
    }
}

/// What the items of a reply say, one after the other.
pub open spec fn items_text(items: Seq<JsonModel>) -> Seq<char>
    decreases items.len(),
{
    if items.len() == 0 {
        Seq::empty()
    } else {
        items_text(items.drop_last()) + item_text(items.last())
    }
}

/// What a reply says: its own output text, or else what its items say.
pub open spec fn output_text(reply: JsonModel) -> Option<Seq<char>> {
    match reply.member("output_text"@) {
        Some(JsonModel::Text(t)) => Some(t),
        _ => match reply.member("output"@) {
            Some(JsonModel::Array(items)) => if items_text(items).len() == 0 {
                None
            } else {
                Some(items_text(items))
            },
            _ => None,
        },
    }
}

/// Whether the doorkeeper's answer lets the agent respond.
pub open spec fn gate_opens(answer: Seq<char>) -> bool {
    let norm = trimmed(answer).map_values(|c: char| upper(c));
    if begins(norm, "YES"@) {
        true
    } else if begins(norm, "NO"@) {
        false
    } else {
        occurs(norm, "PONG"@) || occurs(norm, "YES"@) || occurs(norm, "TRUE"@) || occurs(
            norm,
            "RESPOND"@,
        )
    }
}

/// The key in use: that of the environment, or else the configured one.
pub open spec fn key_in_use(from_env: Option<String>, configured: Option<String>) -> Option<String> {
    if from_env is Some && !blank(from_env->0@) {
        from_env
    } else if configured is Some && !blank(configured->0@) {
        configured
    } else {
        None
    }
}

impl ResponsesProvider {
    /// A provider with a minute for each request and two more tries.
    pub fn new(base_url: &str, api_key_env: &str, api_key: Option<String>, model: &str) -> (r:
        ResponsesProvider)
        ensures
            r.base_url@ == base_url@,
            r.api_key_env@ == api_key_env@,
            r.api_key == api_key,
            r.model@ == model@,
            r.timeout_ms == 60_000,
            r.max_retries == 2,
    {
        ResponsesProvider {
            base_url: base_url.to_owned(),
            api_key_env: api_key_env.to_owned(),
            api_key,
            model: model.to_owned(),
            timeout_ms: 60_000,
            max_retries: 2,
        }
    }

    /// The key to send, where `from_env` is what the environment holds under
    /// `api_key_env`.
    pub fn api_key(&self, from_env: Option<String>) -> (r: Result<String, UnicError>)
        ensures
            match r {
                Ok(key) => key_in_use(from_env, self.api_key) == Some(key),
                Err(e) => {
                    &&& key_in_use(from_env, self.api_key) is None
                    &&& e matches UnicError::Llm(said)
                    &&& said@ == "missing api key: set env var "@ + self.api_key_env@
                        + " or configure llm.responses.api_key"@
                },
            },
    {
        match from_env {
            Some(key) => {
                if !is_blank(key.as_str()) {
                    return Ok(key);
                }
            },
            None => {},
        }
        match &self.api_key {
            Some(key) => {
                if !is_blank(key.as_str()) {
                    return Ok(key.clone());
                }
            },
            None => {},
        }
        Err(
            UnicError::Llm(
                "missing api key: set env var ".to_owned().concat(self.api_key_env.as_str()).concat(
                    " or configure llm.responses.api_key",
                ),
            ),
        )
    }

    /// A prompt as the one text that is sent.
    pub fn prompt_to_input(prompt: &Vec<ChatMessage>) -> (r: Json)
        ensures
            r.model() == JsonModel::Text(prompt_text(prompt@)),
    {
        let mut out = String::new();
        let ghost lines = prompt@.map_values(|m: ChatMessage| prompt_line(m));
        let mut i: usize = 0;
        assert(lines.take(0) =~= Seq::<Seq<char>>::empty());
        while i < prompt.len()
            invariant
                i <= prompt.len(),
                lines == prompt@.map_values(|m: ChatMessage| prompt_line(m)),
                out@ == joined(lines.take(i as int), "\n"@),
                (out@.len() == 0) == (i == 0),
            decreases prompt.len() - i,
        {
            let m = &prompt[i];
            proof {
                let next = lines.take(i + 1);
                assert(next.drop_last() =~= lines.take(i as int));
                assert(next.last() == prompt_line(*m));
                reveal_strlit(": ");
                if i == 0 {
                    assert(next[0] == prompt_line(*m));
                }
            }
            let ghost before = out@;
            if !out.as_str().is_empty() {
                out.append("\n");
            }
            let ghost started = out@;
            let role = match m.role {
                ChatRole::System => "system",
                ChatRole::User => "user",
                ChatRole::Assistant => "assistant",
                ChatRole::Tool => "tool",
            };
            out.append(role);
            out.append(": ");
            out.append(trim(m.content.as_str()));
            assert(out@ =~= started + prompt_line(*m));
            i += 1;
        }
        assert(lines.take(i as int) =~= lines);
        Json::Text(out)
    }

    /// What the doorkeeper is sent, for an agent that has `perception` before it.
    pub fn perception_to_gate_input(perception: &Perception) -> (r: Json)
        ensures
            r.model() == gate_input(perception.soul@, perception.recent@),
    {
        let mut system = String::new();
        system.append("You are a decision gate for an autonomous agent.\n");
        system.append("Decide whether the agent should respond to the latest user message.\n");
        system.append("Output exactly YES or NO (no extra words).\n");
        system.append("Do NOT output the agent's actual reply.\n");
        assert(system@ =~= gate_orders());

        let mut user = String::new();
        if !is_blank(perception.soul.as_str()) {
            user.append("AGENT_SOUL:\n");
            user.append(trim(perception.soul.as_str()));
            user.append("\n\n");
        }
        assert(user@ =~= gate_soul(perception.soul@));
        user.append("RECENT_MESSAGES:\n");
        let ghost head = user@;
        let mut i: usize = 0;
        assert(perception.recent@.take(0) =~= Seq::<Envelope<Message>>::empty());
        assert(head + gate_lines(Seq::empty()) =~= head);
        while i < perception.recent.len()
            invariant
                i <= perception.recent.len(),
                user@ == head + gate_lines(perception.recent@.take(i as int)),
            decreases perception.recent.len() - i,
        {
            let m = &perception.recent[i];
            proof {
                let next = perception.recent@.take(i + 1);
                assert(next.drop_last() =~= perception.recent@.take(i as int));
                assert(next.last() == *m);
            }
            let ghost before = user@;
            let role = match &m.sender {
                Sender::UserSudo => "user",
                Sender::Agent(_) => "assistant",
                Sender::System => "system",
            };
            user.append(role);
            user.append(": ");
            user.append(trim(m.payload.text.as_str()));
            user.append("\n");
            assert(user@ =~= before + gate_line(*m));
            assert(before + gate_line(*m) =~= head + (gate_lines(perception.recent@.take(i as int))
                + gate_line(*m)));
            i += 1;
        }
        assert(perception.recent@.take(i as int) =~= perception.recent@);
        user.append("\nQuestion: Should the agent respond now? Answer YES or NO.\n");
        assert(user@ =~= gate_question(perception.soul@, perception.recent@));

        let mut messages: Vec<Json> = Vec::new();
        messages.push(Self::input_message("system", system));
        messages.push(Self::input_message("user", user));
        assert(items_model(messages@) =~= seq![
            input_message("system"@, gate_orders()),
            input_message("user"@, gate_question(perception.soul@, perception.recent@)),
        ]);
        array(messages)
    }

    /// A message of a `/responses` input.
    fn input_message(role: &str, content: String) -> (r: Json)
        ensures
            r.model() == input_message(role@, content@),
    {
        let mut fields: Vec<(String, Json)> = Vec::new();
        put(&mut fields, "role", Json::Text(role.to_owned()));
        put(&mut fields, "content", Json::Text(content));
        assert(fields_model(fields@) =~= input_message(role@, content@)->Object_0);
        object(fields)
    }

    /// What one part of a reply says, added to `out`.
    fn add_part(out: &mut String, part: &Json)
        ensures
            final(out)@ == old(out)@ + part_text(part.model()),
    {
        let kind = match part.get("type") {
            Some(v) => v.as_text(),
            None => None,
        };
        let spoken = match kind {
            Some(k) => crate::text::same(k, "output_text") || crate::text::same(k, "text"),
            None => false,
        };
        if spoken {
            match part.get("text") {
                Some(v) => match v.as_text() {
                    Some(t) => {
                        out.append(t);
                        return;
                    },
                    None => {},
                },
                None => {},
            }
        }
        assert(out@ + Seq::<char>::empty() =~= out@);
    }

    /// What one item of a reply says, added to `out`.
    fn add_item(out: &mut String, item: &Json)
        ensures
            final(out)@ == old(out)@ + item_text(item.model()),
    {
        let parts = match item.get("content") {
            Some(v) => v.as_array(),
            None => None,
        };
        match parts {
            Some(parts) => {
                let ghost start = out@;
                let ghost all = items_model(parts@);
                let mut i: usize = 0;
                assert(all =~= item.model().member("content"@)->0->Array_0);
                assert(all.take(0) =~= Seq::<JsonModel>::empty());
                assert(start + Seq::<char>::empty() =~= start);
                while i < parts.len()
                    invariant
                        i <= parts.len(),
                        all == items_model(parts@),
                        out@ == start + parts_text(all.take(i as int)),
                    decreases parts.len() - i,
                {
                    proof {
                        assert(all.take(i + 1).drop_last() =~= all.take(i as int));
                        assert(all.take(i + 1).last() == parts@[i as int].model());
                    }
                    Self::add_part(out, &parts[i]);
                    assert(out@ =~= start + parts_text(all.take(i + 1)));
                    i += 1;
                }
                assert(all.take(i as int) =~= all);
            },
            None => {
                assert(out@ + Seq::<char>::empty() =~= out@);
            },
        }
    }

    /// What a reply says.
    pub fn extract_output_text(response_json: &Json) -> (r: Option<String>)
        ensures
            match r {
                Some(t) => output_text(response_json.model()) == Some(t@),
                None => output_text(response_json.model()) is None,
            },
    {
        match response_json.get("output_text") {
            Some(v) => match v.as_text() {
                Some(t) => {
                    return Some(t.to_owned());
                },
                None => {},
            },
            None => {},
        }
        let items = match response_json.get("output") {
            Some(v) => v.as_array(),
            None => None,
        };
        match items {
            Some(items) => {
                let mut out = String::new();
                let ghost all = items_model(items@);
                let mut i: usize = 0;
                assert(all =~= response_json.model().member("output"@)->0->Array_0);
                assert(all.take(0) =~= Seq::<JsonModel>::empty());
                while i < items.len()
                    invariant
                        i <= items.len(),
                        all == items_model(items@),
                        out@ == items_text(all.take(i as int)),
                    decreases items.len() - i,
                {
                    proof {
                        assert(all.take(i + 1).drop_last() =~= all.take(i as int));
                        assert(all.take(i + 1).last() == items@[i as int].model());
                    }
                    Self::add_item(&mut out, &items[i]);
                    i += 1;
                }
                assert(all.take(i as int) =~= all);
                if out.as_str().is_empty() {
                    None
                } else {
                    Some(out)
                }
            },
            None => None,
        }
    }

    /// Whether the doorkeeper's answer lets the agent respond.
    pub fn gate_answer(out: &str) -> (r: bool)
        ensures
            r == gate_opens(out@),
    {
        let norm = ascii_uppercase(trim(out));
        if starts_with(norm.as_str(), "YES") {
            return true;
        }
        if starts_with(norm.as_str(), "NO") {
            return false;
        }
        contains(norm.as_str(), "PONG") || contains(norm.as_str(), "YES") || contains(
            norm.as_str(),
            "TRUE",
        ) || contains(norm.as_str(), "RESPOND")
    }
}

/// How an HTTP status is shown: its number and its usual reason.
pub uninterp spec fn status_shown(code: u16) -> Seq<char>;

/// `reqwest::StatusCode::from_u16` and the status' `to_string`: how the status is
/// shown, which depends on its number alone. The numbers from 100 to 999 are statuses.
#[verifier::external_body]
fn status_line(code: u16) -> (r: String)
    requires
        100 <= code <= 999,
    ensures
        r@ == status_shown(code),
{
    reqwest::StatusCode::from_u16(code).unwrap().to_string()
}

/// How much of the body of an error reply is shown, in bytes.
pub const EXCERPT_BYTES: usize = 2048;

/// Whether `text` can be cut behind the bytes that are shown: no character stands
/// across the cut.
pub open spec fn can_be_cut(text: Seq<char>) -> bool {
    byte_len(text) > EXCERPT_BYTES ==> boundary(text, EXCERPT_BYTES as nat)
}

/// What is shown of the body of an error reply.
pub open spec fn excerpt(text: Seq<char>) -> Seq<char> {
    if byte_len(text) > EXCERPT_BYTES {
        text.take(chars_before(text, EXCERPT_BYTES as nat)) + "…"@
    } else {
        text
    }
}

/// What is shown of the body of an error reply.
pub fn excerpt_of(text: &str) -> (r: String)
    requires
        can_be_cut(text@),
    ensures
        r@ == excerpt(text@),
{
    if bytes_in(text) > EXCERPT_BYTES {
        match char_index(text, EXCERPT_BYTES) {
            Some(k) => {
                assert(text@.subrange(0, k as int) =~= text@.take(k as int));
                text.substring_char(0, k).to_owned().concat("…")
            },
            None => text.to_owned(),
        }
    } else {
        text.to_owned()
    }
}

/// Whether `text` can be cut behind the bytes that are shown.
pub fn is_cuttable(text: &str) -> (r: bool)
    ensures
        r == can_be_cut(text@),
{
    bytes_in(text) <= EXCERPT_BYTES || char_index(text, EXCERPT_BYTES).is_some()
}

/// What became of one request.
#[derive(Debug)]
pub enum PostOutcome {
    /// The server answered, with this status and this body.
    Reply { status: u16, text: String },
    /// The request did not get through, for this reason.
    SendFailed(String),
    /// No answer came in time.
    TimedOut,
    /// The body of the answer could not be read, for this reason.
    BodyFailed(String),
}

/// What a request comes to.
pub enum Judgement {
    /// The model's text.
    Answer(Seq<char>),
    /// What went wrong, and whether another try may help.
    Failure(Seq<char>, bool),
}

/// Whether another try may help after an error reply: the server is busy or broken,
/// or has no account free at the moment.
pub open spec fn may_pass(status: u16, shown: Seq<char>) -> bool {
    ||| status == 429
    ||| 500 <= status < 600
    ||| status == 404 && occurs(shown, "No Codex account is available for responses relay"@)
}

/// What an error reply comes to, where `line` is how its status is shown.
pub open spec fn error_reply(status: u16, line: Seq<char>, text: Seq<char>) -> Judgement {
    Judgement::Failure(
        "provider http error "@ + line + ": "@ + excerpt(text),
        may_pass(status, excerpt(text)),
    )
}

/// What a good reply comes to, by the document that its body spells.
pub open spec fn good_reply(document: Result<JsonModel, Seq<char>>) -> Judgement {
    match document {
        Ok(v) => Judgement::Answer(
            match output_text(v) {
                Some(t) => t,
                None => Seq::empty(),
            },
        ),
        Err(e) => Judgement::Failure("bad json: "@ + e, false),
    }
}

/// What a request comes to.
pub open spec fn judged(outcome: PostOutcome) -> Judgement {
    match outcome {
        PostOutcome::Reply { status, text } => if 200 <= status < 300 {
            good_reply(json_in(text@))
        } else {
            error_reply(status, status_shown(status), text@)
        },
        PostOutcome::SendFailed(e) => Judgement::Failure("POST /responses failed: "@ + e@, true),
        PostOutcome::TimedOut => Judgement::Failure("POST /responses timeout"@, true),
        PostOutcome::BodyFailed(e) => Judgement::Failure(
            "read /responses body failed: "@ + e@,
            false,
        ),
    }
}

/// Whether the outcome can be judged: its status is one, and its body can be shown.
pub open spec fn judgeable(outcome: PostOutcome) -> bool {
    outcome matches PostOutcome::Reply { status, text } ==> {
        &&& 100 <= status <= 999
        &&& (200 <= status < 300 || can_be_cut(text@))
    }
}

/// Whether another try may help after the outcome.
pub open spec fn may_be_tried_again(outcome: PostOutcome) -> bool {
    match outcome {
        PostOutcome::Reply { status, text } => !(200 <= status < 300) && may_pass(
            status,
            excerpt(text@),
        ),
        PostOutcome::SendFailed(_) => true,
        PostOutcome::TimedOut => true,
        PostOutcome::BodyFailed(_) => false,
    }
}

/// How long to wait before the try after `attempt`: a quarter of a second, and
/// twice as long each time, as far as the number can be held.
pub open spec fn backoff(attempt: nat) -> nat {
    if 250 * pow2(attempt) > u64::MAX {
        u64::MAX as nat
    } else {
        250 * pow2(attempt)
    }
}

/// How long to wait before the try after `attempt`.
pub fn backoff_ms(attempt: usize) -> (r: u64)
    requires
        attempt < 64,
    ensures
        r == backoff(attempt as nat),
{
    let mut p: u64 = 1;
    let mut i: usize = 0;
    proof {
        lemma2_to64();
    }
    while i < attempt
        invariant
            i <= attempt < 64,
            p == pow2(i as nat),
        decreases attempt - i,
    {
        proof {
            lemma2_to64();
            lemma_pow2_unfold((i + 1) as nat);
            if i < 62 {
                lemma_pow2_strictly_increases((i + 1) as nat, 63);
            }
            assert(pow2(63) == 0x8000_0000_0000_0000) by {
                lemma2_to64();
                lemma_pow2_unfold(64);
            }
        }
        p = p * 2;
        i += 1;
    }
    if p > u64::MAX / 250 {
        u64::MAX
    } else {
        250 * p
    }
}

/// What to do after a request.
#[derive(Debug)]
pub enum CallStep {
    /// Wait this long, and send the request again.
    Retry { after_ms: u64 },
    /// The call is over.
    Done(Result<String, UnicError>),
}

/// A call to the server: what is sent, and how often it was tried already.
pub struct ResponsesCall {
    pub url: String,
    pub authorization: String,
    pub body: Json,
    pub attempt: usize,
    pub max_retries: usize,
}

impl ResponsesCall {
    /// How many tries failed so far.
    pub open spec fn attempts(&self) -> nat {
        self.attempt as nat
    }

    /// How many tries may follow the first.
    pub open spec fn retries(&self) -> nat {
        self.max_retries as nat
    }

    /// No more tries failed than may be made again.
    pub open spec fn wf(&self) -> bool {
        self.attempts() <= self.retries()
    }

    /// Whether the request is to be sent again after the outcome.
    pub open spec fn goes_on(&self, outcome: PostOutcome) -> bool {
        may_be_tried_again(outcome) && self.attempts() < self.retries()
    }

    /// What is sent is the same.
    pub open spec fn same_request(&self, other: &ResponsesCall) -> bool {
        &&& self.url == other.url
        &&& self.authorization == other.authorization
        &&& self.body == other.body
    }

    /// Whether `step` is what to do after the outcome, and `after` what the call is then.
    pub open spec fn takes(
        &self,
        outcome: PostOutcome,
        after: &ResponsesCall,
        step: CallStep,
    ) -> bool {
        &&& step is Retry <==> self.goes_on(outcome)
        &&& after.wf()
        &&& after.same_request(self)
        &&& after.retries() == self.retries()
        &&& match judged(outcome) {
            Judgement::Answer(t) => {
                &&& step matches CallStep::Done(Ok(answer))
                &&& answer@ == t
                &&& after.attempts() == self.attempts()
            },
            Judgement::Failure(said, again) => if again && self.attempts() < self.retries() {
                &&& step matches CallStep::Retry { after_ms }
                &&& after_ms == backoff(self.attempts())
                &&& after.attempts() == self.attempts() + 1
            } else {
                &&& step matches CallStep::Done(Err(UnicError::Llm(e)))
                &&& e@ == said
                &&& after.attempts() == self.attempts()
            },
        }
    }

    /// What to do next.
    pub fn on_outcome(&mut self, outcome: PostOutcome) -> (step: CallStep)
        requires
            old(self).wf(),
            judgeable(outcome),
            old(self).goes_on(outcome) ==> old(self).attempts() < 64,
        ensures
            old(self).takes(outcome, final(self), step),
    {
        match outcome {
            PostOutcome::Reply { status, text } => if 200 <= status && status < 300 {
                CallStep::Done(read_good_reply(parse_json(text.as_str())))
            } else {
                let line = status_line(status);
                let (said, again) = read_error_reply(status, line.as_str(), text.as_str());
                self.failed(said, again)
            },
            PostOutcome::SendFailed(e) => self.failed(
                "POST /responses failed: ".to_owned().concat(e.as_str()),
                true,
            ),
            PostOutcome::TimedOut => self.failed("POST /responses timeout".to_owned(), true),
            PostOutcome::BodyFailed(e) => self.failed(
                "read /responses body failed: ".to_owned().concat(e.as_str()),
                false,
            ),
        }
    }

    /// What to do after a failure.
    fn failed(&mut self, said: String, again: bool) -> (step: CallStep)
        requires
            old(self).wf(),
            again && old(self).attempts() < old(self).retries() ==> old(self).attempts() < 64,
        ensures
            final(self).wf(),
            final(self).same_request(old(self)),
            final(self).retries() == old(self).retries(),
            if again && old(self).attempts() < old(self).retries() {
                &&& step matches CallStep::Retry { after_ms }
                &&& after_ms == backoff(old(self).attempts())
                &&& final(self).attempts() == old(self).attempts() + 1
            } else {
                &&& step matches CallStep::Done(Err(UnicError::Llm(e)))
                &&& e@ == said@
                &&& final(self).attempts() == old(self).attempts()
            },
    {
        if again && self.attempt < self.max_retries {
            let after_ms: u64 = backoff_ms(self.attempt);
            self.attempt = self.attempt + 1;
            CallStep::Retry { after_ms }
        } else {
            CallStep::Done(Err(UnicError::Llm(said)))
        }
    }
}

/// What a good reply comes to, by the document that its body spells.
pub fn read_good_reply(document: Result<Json, String>) -> (r: Result<String, UnicError>)
    ensures
        match good_reply(crate::json::reading(document)) {
            Judgement::Answer(t) => r matches Ok(answer) && answer@ == t,
            Judgement::Failure(said, _) => r matches Err(UnicError::Llm(e)) && e@ == said,
        },
{
    match document {
        Ok(v) => match ResponsesProvider::extract_output_text(&v) {
            Some(t) => Ok(t),
            None => Ok(String::new()),
        },
        Err(e) => Err(UnicError::Llm("bad json: ".to_owned().concat(e.as_str()))),
    }
}

/// What an error reply comes to, where `line` is how its status is shown: what to
/// say, and whether another try may help.
pub fn read_error_reply(status: u16, line: &str, text: &str) -> (r: (String, bool))
    requires
        can_be_cut(text@),
    ensures
        error_reply(status, line@, text@) == Judgement::Failure(r.0@, r.1),
{
    let shown = excerpt_of(text);
    let again = status == 429 || (500 <= status && status < 600) || (status == 404 && contains(
        shown.as_str(),
        "No Codex account is available for responses relay",
    ));
    (
        "provider http error ".to_owned().concat(line).concat(": ").concat(shown.as_str()),
        again,
    )
}

impl ResponsesProvider {
    /// Whether `r` is how a call that sends `input` begins, where `from_env` is what the
    /// environment holds under `api_key_env`: it begins if there is a key.
    pub open spec fn begins_call(
        &self,
        input: JsonModel,
        from_env: Option<String>,
        r: Result<ResponsesCall, UnicError>,
    ) -> bool {
        match key_in_use(from_env, self.api_key) {
            Some(key) => {
                &&& r matches Ok(call)
                &&& call.wf()
                &&& call.attempts() == 0
                &&& call.retries() == self.max_retries
                &&& call.url@ == without_back(self.base_url@, '/') + "/responses"@
                &&& call.authorization@ == "Bearer "@ + key@
                &&& call.body.model() == JsonModel::Object(
                    seq![("model"@, JsonModel::Text(self.model@)), ("input"@, input)],
                )
            },
            None => {
                &&& r matches Err(UnicError::Llm(said))
                &&& said@ == "missing api key: set env var "@ + self.api_key_env@
                    + " or configure llm.responses.api_key"@
            },
        }
    }

    /// Begins a call that sends `input`, where `from_env` is what the environment holds
    /// under `api_key_env`.
    pub fn responses_create(&self, input: Json, from_env: Option<String>) -> (r: Result<
        ResponsesCall,
        UnicError,
    >)
        ensures
            self.begins_call(input.model(), from_env, r),
    {
        match self.api_key(from_env) {
            Ok(key) => {
                let url = trim_back_char(self.base_url.as_str(), '/').to_owned().concat(
                    "/responses",
                );
                let authorization = "Bearer ".to_owned().concat(key.as_str());
                let mut fields: Vec<(String, Json)> = Vec::new();
                put(&mut fields, "model", Json::Text(self.model.clone()));
                put(&mut fields, "input", input);
                assert(fields_model(fields@) =~= seq![
                    ("model"@, JsonModel::Text(self.model@)),
                    ("input"@, input.model()),
                ]);
                Ok(
                    ResponsesCall {
                        url,
                        authorization,
                        body: object(fields),
                        attempt: 0,
                        max_retries: self.max_retries,
                    },
                )
            },
            Err(e) => Err(e),
        }
    }

    /// Begins the call that answers `prompt`.
    pub fn generate(&self, prompt: &Vec<ChatMessage>, from_env: Option<String>) -> (r: Result<
        ResponsesCall,
        UnicError,
    >)
        ensures
            self.begins_call(JsonModel::Text(prompt_text(prompt@)), from_env, r),
    {
        self.responses_create(Self::prompt_to_input(prompt), from_env)
    }

    /// Begins the call that asks whether to respond. Where the user said nothing lately the
    /// answer is no, and nothing is asked.
    pub fn should_respond(&self, context: &Perception, from_env: Option<String>) -> (r: Option<
        Result<ResponsesCall, UnicError>,
    >)
        ensures
            r is Some <==> last_user_text(context.recent@) is Some,
            r matches Some(begun) ==> self.begins_call(
                gate_input(context.soul@, context.recent@),
                from_env,
                begun,
            ),
    {
        if crate::llm::RuleBasedProvider::last_user_line(context).is_none() {
            return None;
        }
        Some(self.responses_create(Self::perception_to_gate_input(context), from_env))
    }
}

/// The wait grows with every try.
pub proof fn law_backoff_grows(a: nat, b: nat)
    requires
        a <= b,
    ensures
        250 <= backoff(a) <= backoff(b),
{
    lemma2_to64();
    if a < b {
        lemma_pow2_strictly_increases(a, b);
    }
    if a > 0 {
        lemma_pow2_strictly_increases(0, a);
    }
}

/// No request is sent more often than once and the tries that may follow.
pub proof fn law_tries_come_to_an_end(call: ResponsesCall, outcome: PostOutcome)
    requires
        call.attempts() >= call.retries(),
    ensures
        !call.goes_on(outcome),
{
}

/// What the server answered well, or answered with a lasting error, is not asked again.
pub proof fn law_lasting_answers_are_final(call: ResponsesCall, status: u16, text: String)
    requires
        200 <= status < 300 || (status < 500 && status != 404 && status != 429),
    ensures
        !call.goes_on(PostOutcome::Reply { status, text }),
{
}

/// How many characters a prompt has whose contents are not surrounded by white space: the name of
/// each role, a colon and a blank, the whole content, and a line break between the messages.
pub open spec fn prompt_size(prompt: Seq<ChatMessage>) -> nat
    decreases prompt.len(),
{
    if prompt.len() == 0 {
        0
    } else {
        let role: nat = match prompt.last().role {
            ChatRole::System => 6,
            ChatRole::User => 4,
            ChatRole::Assistant => 9,
            ChatRole::Tool => 4,
        };
        let brk: nat = if prompt.len() == 1 { 0 } else { 1 };
        prompt_size(prompt.drop_last()) + brk + role + 2 + prompt.last().content@.len()
    }
}

/// The text for two prompts, one behind the other, is the text for each with a line break
/// between. A message alone is its role and all that it says but the white space around it,
/// whatever stands inside.
pub proof fn law_a_prompt_is_sent_message_by_message(
    a: Seq<ChatMessage>,
    b: Seq<ChatMessage>,
    m: ChatMessage,
    front: Seq<char>,
    middle: Seq<char>,
    back: Seq<char>,
)
    requires
        m.content@ == front + middle + back,
        forall|i: int| 0 <= i < front.len() ==> white(#[trigger] front[i]),
        forall|i: int| 0 <= i < back.len() ==> white(#[trigger] back[i]),
        middle.len() > 0 ==> !white(middle[0]) && !white(middle.last()),
    ensures
        a.len() > 0 && b.len() > 0 ==> prompt_text(a + b) == prompt_text(a) + "\n"@ + prompt_text(b),
        prompt_text(Seq::empty()).len() == 0,
        prompt_text(seq![m]) == match m.role {
            ChatRole::System => "system: "@,
            ChatRole::User => "user: "@,
            ChatRole::Assistant => "assistant: "@,
            ChatRole::Tool => "tool: "@,
        } + middle,
{
    let line = |m: ChatMessage| prompt_line(m);
    assert((a + b).map_values(line) =~= a.map_values(line) + b.map_values(line));
    law_joining_loses_nothing(a.map_values(line), b.map_values(line), "\n"@);
    law_joining_loses_nothing(seq![m].map_values(line), seq![], "\n"@);
    law_only_the_white_space_around_goes(front, middle, back);
    reveal_strlit(": ");
    reveal_strlit("system");
    reveal_strlit("user");
    reveal_strlit("assistant");
    reveal_strlit("tool");
    reveal_strlit("system: ");
    reveal_strlit("user: ");
    reveal_strlit("assistant: ");
    reveal_strlit("tool: ");
    assert("system"@ + ": "@ =~= "system: "@);
    assert("user"@ + ": "@ =~= "user: "@);
    assert("assistant"@ + ": "@ =~= "assistant: "@);
    assert("tool"@ + ": "@ =~= "tool: "@);
    assert(seq![m].map_values(line)[0] == prompt_line(m));
}

/// Nothing that was said is lost on the way to the server: the text that is sent has room for
/// every character of every message, and is no longer.
pub proof fn law_nothing_said_is_lost(prompt: Seq<ChatMessage>)
    requires
        forall|i: int|
            0 <= i < prompt.len() && (#[trigger] prompt[i]).content@.len() > 0 ==> !white(
                prompt[i].content@[0],
            ) && !white(prompt[i].content@.last()),
    ensures
        prompt_text(prompt).len() == prompt_size(prompt),
    decreases prompt.len(),
{
    if prompt.len() > 0 {
        let m = prompt.last();
        let before = prompt.drop_last();
        let none = Seq::<char>::empty();
        assert(prompt[prompt.len() - 1] == m);
        assert forall|i: int| 0 <= i < before.len() && (#[trigger] before[i]).content@.len()
            > 0 implies !white(before[i].content@[0]) && !white(before[i].content@.last()) by {
            assert(before[i] == prompt[i]);
        }
        law_nothing_said_is_lost(before);
        assert(none + m.content@ + none =~= m.content@);
        law_a_prompt_is_sent_message_by_message(before, seq![m], m, none, m.content@, none);
        assert(before + seq![m] =~= prompt);
        if prompt.len() == 1 {
            assert(prompt =~= seq![m]);
        }
        reveal_strlit("\n");
        reveal_strlit("system: ");
        reveal_strlit("user: ");
        reveal_strlit("assistant: ");
        reveal_strlit("tool: ");
    }
}

/// What is sent for a prompt is a text with all that the prompt says: its size is that of the
/// whole prompt, and one message alone is its role and its content.
pub proof fn law_a_prompt_is_sent_whole(prompt: Vec<ChatMessage>, input: Json)
    requires
        call_ensures(ResponsesProvider::prompt_to_input, (&prompt,), input),
        forall|i: int|
            0 <= i < prompt@.len() && (#[trigger] prompt@[i]).content@.len() > 0 ==> !white(
                prompt@[i].content@[0],
            ) && !white(prompt@[i].content@.last()),
    ensures
        input matches Json::Text(t) && {
            &&& t@.len() == prompt_size(prompt@)
            &&& prompt@.len() == 1 ==> t@ == match prompt@[0].role {
                ChatRole::System => "system: "@,
                ChatRole::User => "user: "@,
                ChatRole::Assistant => "assistant: "@,
                ChatRole::Tool => "tool: "@,
            } + prompt@[0].content@
        },
{
    law_nothing_said_is_lost(prompt@);
    if prompt@.len() == 1 {
        let m = prompt@[0];
        let none = Seq::<char>::empty();
        assert(none + m.content@ + none =~= m.content@);
        law_a_prompt_is_sent_message_by_message(seq![], seq![], m, none, m.content@, none);
        assert(prompt@ =~= seq![m]);
    }
}

/// The doorkeeper is told every message, in order: the lines for two lists are the lines for
/// each, and the line for one message is the part of its sender and all that it says but the
/// white space around it.
pub proof fn law_the_doorkeeper_is_told_every_message(
    a: Seq<Envelope<Message>>,
    b: Seq<Envelope<Message>>,
    m: Envelope<Message>,
    front: Seq<char>,
    middle: Seq<char>,
    back: Seq<char>,
)
    requires
        m.payload.text@ == front + middle + back,
        forall|i: int| 0 <= i < front.len() ==> white(#[trigger] front[i]),
        forall|i: int| 0 <= i < back.len() ==> white(#[trigger] back[i]),
        middle.len() > 0 ==> !white(middle[0]) && !white(middle.last()),
    ensures
        gate_lines(a + b) == gate_lines(a) + gate_lines(b),
        gate_lines(seq![m]) == match m.sender {
            Sender::UserSudo => "user"@,
            Sender::Agent(_) => "assistant"@,
            Sender::System => "system"@,
        } + ": "@ + middle + "\n"@,
    decreases b.len(),
{
    law_only_the_white_space_around_goes(front, middle, back);
    assert(seq![m].drop_last() =~= Seq::<Envelope<Message>>::empty());
    assert(gate_lines(Seq::<Envelope<Message>>::empty()) =~= Seq::<char>::empty());
    assert(gate_lines(seq![m]) =~= gate_line(m));
    if b.len() == 0 {
        assert(a + b =~= a);
        assert(gate_lines(a) + gate_lines(b) =~= gate_lines(a));
    } else {
        law_the_doorkeeper_is_told_every_message(a, b.drop_last(), m, front, middle, back);
        assert((a + b).drop_last() =~= a + b.drop_last());
        assert(gate_lines(a + b) =~= gate_lines(a) + gate_lines(b));
    }
}

/// The doorkeeper is sent two messages: what it has to do, from the system, and, from the user,
/// the soul of the agent without the white space around it, where there is one, the recent
/// messages, and the question.
pub proof fn law_the_doorkeeper_is_asked(
    soul: Seq<char>,
    recent: Seq<Envelope<Message>>,
    front: Seq<char>,
    middle: Seq<char>,
    back: Seq<char>,
)
    requires
        soul == front + middle + back,
        forall|i: int| 0 <= i < front.len() ==> white(#[trigger] front[i]),
        forall|i: int| 0 <= i < back.len() ==> white(#[trigger] back[i]),
        middle.len() > 0 ==> !white(middle[0]) && !white(middle.last()),
    ensures
        gate_input(soul, recent) matches JsonModel::Array(sent) && {
            &&& sent.len() == 2
            &&& sent[0].member("role"@) == Some(JsonModel::Text("system"@))
            &&& sent[0].member("content"@) == Some(
                JsonModel::Text(
                    "You are a decision gate for an autonomous agent.\n"@
                        + "Decide whether the agent should respond to the latest user message.\n"@
                        + "Output exactly YES or NO (no extra words).\n"@
                        + "Do NOT output the agent's actual reply.\n"@,
                ),
            )
            &&& sent[1].member("role"@) == Some(JsonModel::Text("user"@))
            &&& sent[1].member("content"@) == Some(
                JsonModel::Text(
                    if middle.len() == 0 {
                        Seq::empty()
                    } else {
                        "AGENT_SOUL:\n"@ + middle + "\n\n"@
                    } + "RECENT_MESSAGES:\n"@ + gate_lines(recent)
                        + "\nQuestion: Should the agent respond now? Answer YES or NO.\n"@,
                ),
            )
        },
{
    law_only_the_white_space_around_goes(front, middle, back);
    reveal_strlit("role");
    reveal_strlit("content");
    assert("role"@.len() != "content"@.len());
    let sent = gate_input(soul, recent)->Array_0;
    law_the_first_field_counts(sent[0]->Object_0, "role"@, 0);
    law_the_first_field_counts(sent[0]->Object_0, "content"@, 1);
    law_the_first_field_counts(sent[1]->Object_0, "role"@, 0);
    law_the_first_field_counts(sent[1]->Object_0, "content"@, 1);
}

/// A part of a reply that is text says just its text; a part of another kind, or without a text,
/// says nothing.
pub proof fn law_text_parts_speak(part: JsonModel, t: Seq<char>)
    ensures
        (part.member("type"@) == Some(JsonModel::Text("output_text"@)) || part.member("type"@)
            == Some(JsonModel::Text("text"@))) && part.member("text"@) == Some(JsonModel::Text(t))
            ==> parts_text(seq![part]) == t,
        part.member("type"@) != Some(JsonModel::Text("output_text"@)) && part.member("type"@)
            != Some(JsonModel::Text("text"@)) ==> parts_text(seq![part]).len() == 0,
        !(part.member("text"@) matches Some(JsonModel::Text(_))) ==> parts_text(seq![part]).len()
            == 0,
{
    assert(seq![part].drop_last() =~= Seq::<JsonModel>::empty());
    assert(parts_text(Seq::<JsonModel>::empty()) + part_text(part) =~= part_text(part));
    assert(parts_text(seq![part]) == part_text(part));
    match part.member("type"@) {
        Some(JsonModel::Text(k)) => {},
        _ => {},
    }
}

/// A reply says all of its parts, and all of its items, one after the other.
pub proof fn law_a_reply_says_all_its_parts(
    a: Seq<JsonModel>,
    b: Seq<JsonModel>,
    item: JsonModel,
    parts: Seq<JsonModel>,
)
    ensures
        parts_text(a + b) == parts_text(a) + parts_text(b),
        items_text(a + b) == items_text(a) + items_text(b),
        item.member("content"@) == Some(JsonModel::Array(parts)) ==> items_text(seq![item])
            == parts_text(parts),
    decreases b.len(),
{
    let none = Seq::<JsonModel>::empty();
    assert(seq![item].drop_last() =~= none);
    assert(items_text(none) + item_text(item) =~= item_text(item));
    assert(items_text(seq![item]) == item_text(item));
    if b.len() == 0 {
        assert(a + b =~= a);
        assert(parts_text(a) + parts_text(b) =~= parts_text(a));
        assert(items_text(a) + items_text(b) =~= items_text(a));
    } else {
        law_a_reply_says_all_its_parts(a, b.drop_last(), item, parts);
        assert((a + b).drop_last() =~= a + b.drop_last());
        assert(parts_text(a + b) =~= parts_text(a) + parts_text(b));
        assert(items_text(a + b) =~= items_text(a) + items_text(b));
    }
}

/// A reply with an output text says that text, and otherwise what its items say; one without
/// either says nothing.
pub proof fn law_the_output_text_comes_first(reply: JsonModel, t: Seq<char>, items: Seq<JsonModel>)
    ensures
        reply.member("output_text"@) == Some(JsonModel::Text(t)) ==> output_text(reply) == Some(t),
        !(reply.member("output_text"@) matches Some(JsonModel::Text(_))) ==> {
            &&& reply.member("output"@) == Some(JsonModel::Array(items)) && items_text(items).len()
                > 0 ==> output_text(reply) == Some(items_text(items))
            &&& reply.member("output"@) == Some(JsonModel::Array(items)) && items_text(items).len()
                == 0 ==> output_text(reply) is None
            &&& !(reply.member("output"@) matches Some(JsonModel::Array(_))) ==> output_text(
                reply,
            ) is None
        },
{
}

/// The doorkeeper's answer counts by its first word, in either case and with any white space
/// around it: yes lets the agent respond, and no does not. An answer in which no word of consent
/// can begin does not either, and one with `pong` in it does, unless it begins with no.
pub proof fn law_the_doorkeepers_word_counts(
    front: Seq<char>,
    word: Seq<char>,
    back: Seq<char>,
    i: int,
)
    requires
        forall|i: int| 0 <= i < front.len() ==> white(#[trigger] front[i]),
        forall|i: int| 0 <= i < back.len() ==> white(#[trigger] back[i]),
        word.len() > 0 ==> !white(word[0]) && !white(word.last()),
    ensures
        gate_opens(front + word + back) == gate_opens(word),
        word.len() >= 3 && (word[0] == 'Y' || word[0] == 'y') && (word[1] == 'E' || word[1] == 'e')
            && (word[2] == 'S' || word[2] == 's') ==> gate_opens(word),
        word.len() >= 2 && (word[0] == 'N' || word[0] == 'n') && (word[1] == 'O' || word[1] == 'o')
            ==> !gate_opens(word),
        !(word.len() >= 2 && (word[0] == 'N' || word[0] == 'n') && (word[1] == 'O' || word[1]
            == 'o')) && 0 <= i && i + 4 <= word.len() && (word[i] == 'P' || word[i] == 'p') && (
        word[i + 1] == 'O' || word[i + 1] == 'o') && (word[i + 2] == 'N' || word[i + 2] == 'n') && (
        word[i + 3] == 'G' || word[i + 3] == 'g') ==> gate_opens(word),
        (forall|j: int|
            0 <= j < word.len() ==> {
                let c = #[trigger] word[j];
                c != 'P' && c != 'p' && c != 'Y' && c != 'y' && c != 'T' && c != 't' && c != 'R' && c
                    != 'r'
            }) ==> !gate_opens(word),
{
    law_only_the_white_space_around_goes(front, word, back);
    law_a_bare_text_is_left_as_it_is(word);
    let norm = word.map_values(|c: char| upper(c));
    reveal_strlit("YES");
    reveal_strlit("NO");
    reveal_strlit("PONG");
    reveal_strlit("TRUE");
    reveal_strlit("RESPOND");
    if word.len() >= 3 {
        assert(norm.take(3)[0] == norm[0] && norm.take(3)[1] == norm[1] && norm.take(3)[2]
            == norm[2]);
        if upper(word[0]) == 'Y' && upper(word[1]) == 'E' && upper(word[2]) == 'S' {
            assert(norm.take(3) =~= "YES"@);
        }
        if begins(norm, "YES"@) {
            assert("YES"@[0] == 'Y');
        }
    }
    if word.len() >= 2 {
        assert(norm.take(2)[0] == norm[0] && norm.take(2)[1] == norm[1]);
        if upper(word[0]) == 'N' && upper(word[1]) == 'O' {
            assert(norm.take(2) =~= "NO"@);
        }
        if begins(norm, "NO"@) {
            assert("NO"@[0] == 'N' && "NO"@[1] == 'O');
        }
    }
    if 0 <= i && i + 4 <= word.len() && upper(word[i]) == 'P' && upper(word[i + 1]) == 'O' && upper(
        word[i + 2],
    ) == 'N' && upper(word[i + 3]) == 'G' {
        assert(norm.subrange(i, i + 4) =~= "PONG"@);
        assert(occurs_at(norm, "PONG"@, i));
    }
    if forall|j: int|
        0 <= j < word.len() ==> {
            let c = #[trigger] word[j];
            c != 'P' && c != 'p' && c != 'Y' && c != 'y' && c != 'T' && c != 't' && c != 'R' && c
                != 'r'
        } {
        assert forall|p: Seq<char>, at: int|
            p.len() > 0 && (p[0] == 'P' || p[0] == 'Y' || p[0] == 'T' || p[0]
                == 'R') implies !#[trigger] occurs_at(norm, p, at) by {
            if occurs_at(norm, p, at) {
                assert(norm.subrange(at, at + p.len())[0] == norm[at]);
                assert(norm[at] == upper(word[at]));
            }
        }
        if begins(norm, "YES"@) {
            assert(norm.take(3)[0] == upper(word[0]));
            assert("YES"@[0] == 'Y');
        }
    }
}

/// The key of the environment is used where it says something, and otherwise the configured one
/// where that does; there is none only where neither does.
pub proof fn law_the_key_of_the_environment_comes_first(
    from_env: Option<String>,
    configured: Option<String>,
)
    ensures
        from_env matches Some(k) && !blank(k@) ==> key_in_use(from_env, configured) == from_env,
        !(from_env matches Some(k) && !blank(k@)) && (configured matches Some(c) && !blank(c@))
            ==> key_in_use(from_env, configured) == configured,
        key_in_use(from_env, configured) is None <==> !(from_env matches Some(k) && !blank(k@))
            && !(configured matches Some(c) && !blank(c@)),
{
}

/// The body of an error reply is shown as it is, unless it is too long: then its first bytes are
/// shown, no character of them changed, and a mark that there is more.
pub proof fn law_an_excerpt_is_the_front_of_the_text(text: Seq<char>)
    requires
        can_be_cut(text),
    ensures
        byte_len(text) <= 2048 ==> excerpt(text) == text,
        byte_len(text) > 2048 ==> {
            &&& excerpt(text).len() > 0
            &&& excerpt(text).last() == '…'
            &&& begins(text, excerpt(text).drop_last())
            &&& byte_len(excerpt(text).drop_last()) == 2048
        },
{
    if byte_len(text) > 2048 {
        let k = chars_before(text, 2048);
        assert(boundary(text, 2048));
        assert(0 <= k <= text.len() && offset(text, k) == 2048);
        reveal_strlit("…");
        assert(excerpt(text).drop_last() =~= text.take(k));
    }
}

/// A request that did not get through, was too slow, or met a busy or broken server is sent
/// again, the very same, as long as tries are left, and ends in an error otherwise. A good answer
/// and one that could not be read are final, and so are all other errors.
pub proof fn law_only_passing_trouble_is_tried_again(
    call: ResponsesCall,
    outcome: PostOutcome,
    after: ResponsesCall,
    step: CallStep,
)
    requires
        call.takes(outcome, &after, step),
    ensures
        after.url == call.url,
        after.authorization == call.authorization,
        after.body == call.body,
        after.max_retries == call.max_retries,
        after.attempt <= after.max_retries,
        match outcome {
            PostOutcome::SendFailed(_) => true,
            PostOutcome::TimedOut => true,
            PostOutcome::Reply { status, .. } => status == 429 || (500 <= status && status <= 599),
            PostOutcome::BodyFailed(_) => false,
        } ==> if call.attempt < call.max_retries {
            step is Retry && after.attempt == call.attempt + 1
        } else {
            step matches CallStep::Done(Err(UnicError::Llm(_))) && after.attempt == call.attempt
        },
        match outcome {
            PostOutcome::BodyFailed(_) => true,
            PostOutcome::Reply { status, .. } => status < 500 && status != 429 && status != 404
                || status > 599,
            _ => false,
        } ==> step is Done && after.attempt == call.attempt,
        outcome matches PostOutcome::Reply { status: 404, text } ==> byte_len(text@) <= 2048 ==> (
        step is Retry <==> call.attempt < call.max_retries && occurs(
            text@,
            "No Codex account is available for responses relay"@,
        )),
{
}

/// A good answer is handed on as it is, and an error tells all that the server said, unless that
/// is too long.
pub proof fn law_the_server_is_heard(
    call: ResponsesCall,
    status: u16,
    text: String,
    document: JsonModel,
    t: Seq<char>,
    after: ResponsesCall,
    step: CallStep,
)
    requires
        call.takes(PostOutcome::Reply { status, text }, &after, step),
    ensures
        200 <= status <= 299 && json_in(text@) == Ok::<JsonModel, Seq<char>>(document)
            && document.member("output_text"@) == Some(JsonModel::Text(t)) ==> {
            step matches CallStep::Done(Ok(answer)) && answer@ == t
        },
        !(200 <= status <= 299) && byte_len(text@) <= 2048 && step is Done ==> {
            step matches CallStep::Done(Err(UnicError::Llm(e))) && e@ == "provider http error "@
                + status_shown(status) + ": "@ + text@
        },
{
}

/// The first wait is a quarter of a second, and every wait is twice the one before, as far as the
/// number can be held.
pub proof fn law_the_wait_doubles(attempt: nat)
    ensures
        backoff(0) == 250,
        backoff(attempt + 1) == if 2 * backoff(attempt) > u64::MAX {
            u64::MAX as nat
        } else {
            2 * backoff(attempt)
        },
{
    lemma2_to64();
    lemma_pow2_unfold(attempt + 1);
}

/// Slashes at the end of the address make no difference. The request names the model and holds
/// the input as it is, and the key is sent as it is.
pub proof fn law_a_request_says_what_is_asked(
    provider: ResponsesProvider,
    base: Seq<char>,
    slashes: Seq<char>,
    input: JsonModel,
    from_env: Option<String>,
    call: ResponsesCall,
)
    requires
        provider.begins_call(input, from_env, Ok(call)),
        provider.base_url@ == base + slashes,
        forall|i: int| 0 <= i < slashes.len() ==> #[trigger] slashes[i] == '/',
        base.len() > 0 ==> base.last() != '/',
    ensures
        call.url@ == base + "/responses"@,
        call.body.model().member("model"@) == Some(JsonModel::Text(provider.model@)),
        call.body.model().member("input"@) == Some(input),
        call.attempt == 0,
        call.max_retries == provider.max_retries,
        from_env matches Some(k) && !blank(k@) ==> call.authorization@ == "Bearer "@ + from_env->0@,
        from_env is None ==> provider.api_key is Some && call.authorization@ == "Bearer "@
            + provider.api_key->0@,
    decreases slashes.len(),
{
    lemma_slashes_go(base, slashes);
    reveal_strlit("model");
    reveal_strlit("input");
    assert("model"@[0] != "input"@[0]);
    let fields = call.body.model()->Object_0;
    law_the_first_field_counts(fields, "model"@, 0);
    law_the_first_field_counts(fields, "input"@, 1);
}

proof fn lemma_slashes_go(base: Seq<char>, slashes: Seq<char>)
    requires
        forall|i: int| 0 <= i < slashes.len() ==> #[trigger] slashes[i] == '/',
        base.len() > 0 ==> base.last() != '/',
    ensures
        without_back(base + slashes, '/') == base,
    decreases slashes.len(),
{
    let s = base + slashes;
    if slashes.len() == 0 {
        assert(s =~= base);
    } else {
        assert(s.last() == slashes[slashes.len() - 1]);
        assert(s.drop_last() =~= base + slashes.drop_last());
        lemma_slashes_go(base, slashes.drop_last());
    }
}

/// Whoever has no key sends nothing, and is told which variable would hold it.
pub proof fn law_without_a_key_nothing_is_sent(
    provider: ResponsesProvider,
    input: JsonModel,
    from_env: Option<String>,
    r: Result<ResponsesCall, UnicError>,
)
    requires
        provider.begins_call(input, from_env, r),
    ensures
        r is Err <==> (from_env is None || blank(from_env->0@)) && (provider.api_key is None
            || blank(provider.api_key->0@)),
        r matches Err(e) ==> (e matches UnicError::Llm(said) && occurs(
            said@,
            "set env var "@ + provider.api_key_env@,
        )),
{
    if r is Err {
        reveal_strlit("missing api key: set env var ");
        reveal_strlit("missing api key: ");
        reveal_strlit("set env var ");
        assert("missing api key: set env var "@ =~= "missing api key: "@ + "set env var "@);
        let name = provider.api_key_env@;
        let back = " or configure llm.responses.api_key"@;
        law_parts_occur("missing api key: "@, "set env var "@ + name, back);
        assert("missing api key: "@ + ("set env var "@ + name) + back
            =~= "missing api key: set env var "@ + name + back);
    }
}

/// The call that answers a prompt holds the whole prompt, and the one that asks the doorkeeper
/// all that it has to know; the doorkeeper is asked just where the user said something.
pub proof fn law_calls_hold_what_they_ask(
    provider: ResponsesProvider,
    prompt: Vec<ChatMessage>,
    context: Perception,
    from_env: Option<String>,
    answering: Result<ResponsesCall, UnicError>,
    asking: Option<Result<ResponsesCall, UnicError>>,
)
    requires
        call_ensures(ResponsesProvider::generate, (&provider, &prompt, from_env), answering),
        call_ensures(ResponsesProvider::should_respond, (&provider, &context, from_env), asking),
        forall|i: int|
            0 <= i < prompt@.len() && (#[trigger] prompt@[i]).content@.len() > 0 ==> !white(
                prompt@[i].content@[0],
            ) && !white(prompt@[i].content@.last()),
    ensures
        answering matches Ok(call) ==> {
            &&& call.body.model().member("input"@) matches Some(JsonModel::Text(t))
            &&& t.len() == prompt_size(prompt@)
        },
        asking is Some <==> exists|i: int|
            0 <= i < context.recent@.len() && (#[trigger] context.recent@[i]).sender
                == Sender::UserSudo,
        asking matches Some(Ok(call)) ==> call.body.model().member("input"@) == Some(
            gate_input(context.soul@, context.recent@),
        ),
{
    law_nothing_said_is_lost(prompt@);
    reveal_strlit("model");
    reveal_strlit("input");
    assert("model"@[0] != "input"@[0]);
    if let Ok(call) = answering {
        law_the_first_field_counts(call.body.model()->Object_0, "input"@, 1);
    }
    if let Some(Ok(call)) = asking {
        law_the_first_field_counts(call.body.model()->Object_0, "input"@, 1);
    }
    lemma_user_spoke(context.recent@);
}

proof fn lemma_user_spoke(recent: Seq<Envelope<Message>>)
    ensures
        last_user_text(recent) is Some <==> exists|i: int|
            0 <= i < recent.len() && (#[trigger] recent[i]).sender == Sender::UserSudo,
    decreases recent.len(),
{
    if recent.len() > 0 {
        let before = recent.drop_last();
        lemma_user_spoke(before);
        if recent.last().sender == Sender::UserSudo {
            assert(recent[recent.len() - 1].sender == Sender::UserSudo);
        } else {
            if exists|i: int| 0 <= i < before.len() && (#[trigger] before[i]).sender
                == Sender::UserSudo {
                let i = choose|i: int| 0 <= i < before.len() && (#[trigger] before[i]).sender
                    == Sender::UserSudo;
                assert(recent[i].sender == Sender::UserSudo);
            }
            if exists|i: int| 0 <= i < recent.len() && (#[trigger] recent[i]).sender
                == Sender::UserSudo {
                let i = choose|i: int| 0 <= i < recent.len() && (#[trigger] recent[i]).sender
                    == Sender::UserSudo;
                assert(before[i].sender == Sender::UserSudo);
            }
        }
    }
}

/// A call that fails for good tells why, in full; a good answer without a text is empty; and the
/// wait before another try is the one for the tries so far.
pub proof fn law_failures_tell_their_reason(
    call: ResponsesCall,
    outcome: PostOutcome,
    after: ResponsesCall,
    step: CallStep,
)
    requires
        call.takes(outcome, &after, step),
    ensures
        step matches CallStep::Retry { after_ms } ==> after_ms == backoff(call.attempt as nat),
        (outcome matches PostOutcome::SendFailed(why) && step is Done) ==> (
        step matches CallStep::Done(Err(UnicError::Llm(e))) && e@ == "POST /responses failed: "@
            + outcome->SendFailed_0@),
        (outcome is TimedOut && step is Done) ==> (
        step matches CallStep::Done(Err(UnicError::Llm(e))) && e@ == "POST /responses timeout"@),
        outcome matches PostOutcome::BodyFailed(why) ==> (
        step matches CallStep::Done(Err(UnicError::Llm(e))) && e@
            == "read /responses body failed: "@ + why@),
        outcome matches PostOutcome::Reply { status, text } ==> 200 <= status <= 299 ==> {
            &&& json_in(text@) matches Err(why) ==> (
            step matches CallStep::Done(Err(UnicError::Llm(e))) && e@ == "bad json: "@ + why)
            &&& json_in(text@) matches Ok(document) ==> !(document.member(
                "output_text"@,
            ) matches Some(JsonModel::Text(_))) && !(document.member(
                "output"@,
            ) matches Some(JsonModel::Array(_))) ==> (step matches CallStep::Done(Ok(answer))
                && answer@.len() == 0)
        },
{
}

/// A word of consent in an answer counts wherever it stands, unless the answer begins with no;
/// without any such word the answer does not let the agent respond.
pub proof fn law_any_word_of_consent_counts(
    a: Seq<char>,
    b: Seq<char>,
    out: &str,
    opened: bool,
)
    requires
        call_ensures(ResponsesProvider::gate_answer, (out,), opened),
        out@.len() > 0 ==> !white(out@[0]) && !white(out@.last()),
    ensures
        !(out@.len() >= 2 && (out@[0] == 'N' || out@[0] == 'n') && (out@[1] == 'O' || out@[1]
            == 'o')) && (out@ == a + "YES"@ + b || out@ == a + "TRUE"@ + b || out@ == a
            + "RESPOND"@ + b || out@ == a + "PONG"@ + b) ==> opened,
        opened ==> {
            let norm = out@.map_values(|c: char| upper(c));
            occurs(norm, "YES"@) || occurs(norm, "TRUE"@) || occurs(norm, "RESPOND"@) || occurs(
                norm,
                "PONG"@,
            )
        },
{
    law_a_bare_text_is_left_as_it_is(out@);
    reveal_strlit("YES");
    reveal_strlit("NO");
    reveal_strlit("PONG");
    reveal_strlit("TRUE");
    reveal_strlit("RESPOND");
    let up = |c: char| upper(c);
    let norm = out@.map_values(up);
    assert("YES"@.map_values(up) =~= "YES"@);
    assert("PONG"@.map_values(up) =~= "PONG"@);
    assert("TRUE"@.map_values(up) =~= "TRUE"@);
    assert("RESPOND"@.map_values(up) =~= "RESPOND"@);
    assert forall|p: Seq<char>| out@ == a + p + b && #[trigger] p.map_values(up) == p implies occurs(
        norm,
        p,
    ) by {
        assert(norm =~= a.map_values(up) + p.map_values(up) + b.map_values(up));
        law_parts_occur(a.map_values(up), p, b.map_values(up));
    }
    if begins(norm, "NO"@) {
        assert(norm.take(2)[0] == norm[0] && norm.take(2)[1] == norm[1]);
        assert("NO"@[0] == 'N' && "NO"@[1] == 'O');
    }
    if begins(norm, "YES"@) {
        let rest = norm.skip(3);
        assert(norm =~= Seq::<char>::empty() + "YES"@ + rest);
        law_parts_occur(Seq::empty(), "YES"@, rest);
    }
}

/// What is read out of a reply is the output text that it has, word for word.
pub proof fn law_the_output_text_is_read(reply: Json, t: Seq<char>, read: Option<String>)
    requires
        call_ensures(ResponsesProvider::extract_output_text, (&reply,), read),
        reply.model().member("output_text"@) == Some(JsonModel::Text(t)),
    ensures
        read matches Some(r) && r@ == t,
{
}

} // verus!
