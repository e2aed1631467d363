//! The connectivity test: a server is asked to say `Pong`.

use vstd::prelude::*;
use vstd::string::*;
use crate::common::{chat_lines, ChatLine, ChatMessage, ChatRole};
use crate::llm::lowercase;
use crate::path::{inside, join_path};
use crate::responses::ResponsesProvider;
use crate::text::{begins, quote, quoted, same, starts_with, trim, trim_char, trimmed, unwrapped};

verus! {

/// How the server is reached, in the file of the test.
#[derive(Debug)]
pub struct ModelResponses {
    pub base_url: String,
    pub api_key_env: String,
    pub api_key: Option<String>,
}

/// What the file of the test says about the model.
#[derive(Debug)]
pub struct ModelSection {
    pub provider: Option<String>,
    pub model: Option<String>,
    pub responses: Option<ModelResponses>,
}

/// What the file of the test says.
#[derive(Debug)]
pub struct ChobitsConfig {
    pub model: ModelSection,
}

/// Where the file of the test stands, where `home` is the user's directory.
pub fn default_chobits_config_path(home: &Option<String>) -> (r: String)
    ensures
        r@ == inside(
            match *home {
                Some(h) => h@,
                None => "/home/midori"@,
            },
            "chobits/config.toml"@,
        ),
{
    match home {
        Some(h) => join_path(h.as_str(), "chobits/config.toml"),
        None => join_path("/home/midori", "chobits/config.toml"),
    }
}

/// An answer without white space and quotation marks around it.
pub open spec fn normal(s: Seq<char>) -> Seq<char> {
    trimmed(unwrapped(unwrapped(trimmed(s), '"'), '\''))
}

/// An answer without white space and quotation marks around it.
pub fn normalize(s: &str) -> (r: String)
    ensures
        r@ == normal(s@),
{
    trim(trim_char(trim_char(trim(s), '"'), '\'')).to_owned()
}

/// Which model is asked.
pub open spec fn model_in_use(cfg: ChobitsConfig) -> Seq<char> {
    match cfg.model.model {
        Some(m) => m@,
        None => "gpt-5.2"@,
    }
}

/// The server that the test asks, or why there is none.
pub fn provider_for(cfg: &ChobitsConfig) -> (r: Result<ResponsesProvider, String>)
    ensures
        match cfg.model.responses {
            Some(described) => {
                &&& r matches Ok(p)
                &&& p.base_url@ == described.base_url@
                &&& p.api_key_env@ == described.api_key_env@
                &&& p.api_key == described.api_key
                &&& p.model@ == model_in_use(*cfg)
                &&& p.timeout_ms == 60_000
                &&& p.max_retries == 8
            },
            None => r matches Err(e) && e@ == "missing [model.responses] in config"@,
        },
{
    let model = match &cfg.model.model {
        Some(m) => m.as_str(),
        None => "gpt-5.2",
    };
    match &cfg.model.responses {
        Some(described) => {
            let api_key = match &described.api_key {
                Some(k) => Some(k.clone()),
                None => None,
            };
            let mut p = ResponsesProvider::new(
                described.base_url.as_str(),
                described.api_key_env.as_str(),
                api_key,
                model,
            );
            p.max_retries = 8;
            p.timeout_ms = 60_000;
            Ok(p)
        },
        None => Err("missing [model.responses] in config".to_owned()),
    }
}

/// What is said before the server is asked.
pub fn greeting(provider: &ResponsesProvider) -> (r: String)
    ensures
        r@ == "Ping/Pong: model="@ + provider.model@ + " base_url="@ + provider.base_url@
            + " api_key_env="@ + provider.api_key_env@,
{
    "Ping/Pong: model=".to_owned().concat(provider.model.as_str()).concat(" base_url=").concat(
        provider.base_url.as_str(),
    ).concat(" api_key_env=").concat(provider.api_key_env.as_str())
}

/// What the server is asked.
pub fn question() -> (r: Vec<ChatMessage>)
    ensures
        chat_lines(r@) == seq![
            ChatLine {
                role: ChatRole::System,
                content:
                    "You are a connectivity test. Reply exactly with Pong and nothing else."@,
                name: None,
            },
            ChatLine { role: ChatRole::User, content: "Ping"@, name: None },
        ],
{
    let mut out: Vec<ChatMessage> = Vec::new();
    out.push(
        ChatMessage {
            role: ChatRole::System,
            content:
                "You are a connectivity test. Reply exactly with Pong and nothing else.".to_owned(),
            name: None,
        },
    );
    out.push(ChatMessage { role: ChatRole::User, content: "Ping".to_owned(), name: None });
    assert(chat_lines(out@) =~= seq![
        ChatLine {
            role: ChatRole::System,
            content: "You are a connectivity test. Reply exactly with Pong and nothing else."@,
            name: None,
        },
        ChatLine { role: ChatRole::User, content: "Ping"@, name: None },
    ]);
    out
}

/// How the test ended.
#[derive(Debug)]
pub enum Verdict {
    /// As it should, and this is shown.
    Good(String),
    /// Almost as it should, and this is shown.
    Doubtful(String),
    /// Not as it should, for this reason.
    Failed(String),
}

/// Whether `verdict` is how the test ends on the answer `norm`, in lower case `lowered`, as a
/// literal `literal`.
pub open spec fn ends_with(
    norm: Seq<char>,
    lowered: Seq<char>,
    literal: Seq<char>,
    verdict: Verdict,
) -> bool {
    if norm == "Pong"@ {
        verdict matches Verdict::Good(t) && t@ == "OK: Pong"@
    } else if begins(lowered, "pong"@) {
        verdict matches Verdict::Doubtful(t) && t@ == "WARN: got "@ + literal
            + " (starts with Pong)"@
    } else {
        verdict matches Verdict::Failed(t) && t@ == "FAIL: expected Pong, got "@ + literal
    }
}

/// How the test ends on the answer `norm`, in lower case `lowered`, as a literal `literal`.
pub fn judge(norm: &str, lowered: &str, literal: &str) -> (r: Verdict)
    ensures
        ends_with(norm@, lowered@, literal@, r),
{
    if same(norm, "Pong") {
        Verdict::Good("OK: Pong".to_owned())
    } else if starts_with(lowered, "pong") {
        Verdict::Doubtful("WARN: got ".to_owned().concat(literal).concat(" (starts with Pong)"))
    } else {
        Verdict::Failed("FAIL: expected Pong, got ".to_owned().concat(literal))
    }
}

/// How the test ends on an answer.
pub fn verdict(answer: &str) -> (r: Verdict)
    ensures
        ends_with(normal(answer@), lowercase(normal(answer@)), quoted(normal(answer@)), r),
{
    let norm = normalize(answer);
    let lowered = norm.as_str().to_lowercase();
    let literal = quote(norm.as_str());
    judge(norm.as_str(), lowered.as_str(), literal.as_str())
}

/// White space and quotation marks around an answer do not count, and nothing else of it is left
/// out.
pub proof fn law_an_answer_counts_without_its_wrapping(
    front: Seq<char>,
    middle: Seq<char>,
    back: Seq<char>,
)
    requires
        forall|i: int| 0 <= i < front.len() ==> crate::text::white(#[trigger] front[i]),
        forall|i: int| 0 <= i < back.len() ==> crate::text::white(#[trigger] back[i]),
        middle.len() > 0,
        !crate::text::white(middle[0]) && middle[0] != '"' && middle[0] != '\'',
        !crate::text::white(middle.last()) && middle.last() != '"' && middle.last() != '\'',
    ensures
        normal(front + middle + back) == middle,
        normal(front + (seq!['"'] + middle + seq!['"']) + back) == middle,
        normal(front + (seq!['\''] + middle + seq!['\'']) + back) == middle,
{
    let none = Seq::<char>::empty();
    crate::text::law_only_the_white_space_around_goes(front, middle, back);
    crate::text::law_a_bare_text_is_left_as_it_is(middle);
    let double = seq!['"'] + middle + seq!['"'];
    let single = seq!['\''] + middle + seq!['\''];
    crate::text::law_only_the_white_space_around_goes(front, double, back);
    crate::text::law_only_the_white_space_around_goes(front, single, back);
    assert(double.drop_first() =~= middle + seq!['"']);
    assert(single.drop_first() =~= middle + seq!['\'']);
    assert((middle + seq!['"']).drop_last() =~= middle);
    assert((middle + seq!['\'']).drop_last() =~= middle);
    reveal_with_fuel(crate::text::without_front, 2);
    reveal_with_fuel(crate::text::without_back, 2);
    assert((middle + seq!['"'])[0] == middle[0]);
    assert((middle + seq!['\''])[0] == middle[0]);
    assert(double.last() == '"' && single.last() == '\'');
    assert(single[0] == '\'');
    assert(unwrapped(single, '"') == single);
    assert(unwrapped(double, '"') == middle);
    assert(unwrapped(middle, '"') == middle);
    assert(unwrapped(middle, '\'') == middle);
    assert(unwrapped(single, '\'') == middle);
}

/// The test succeeds just where the answer is `Pong`; it is doubtful where the answer only begins
/// like that, in any case, and fails otherwise, and then shows what came instead.
pub proof fn law_only_pong_is_good(norm: &str, lowered: &str, literal: &str, verdict: Verdict)
    requires
        call_ensures(judge, (norm, lowered, literal), verdict),
    ensures
        verdict is Good <==> norm@ == "Pong"@,
        verdict is Doubtful <==> norm@ != "Pong"@ && begins(lowered@, "pong"@),
        verdict matches Verdict::Good(t) ==> t@ == "OK: Pong"@,
        verdict matches Verdict::Doubtful(t) ==> t@ == "WARN: got "@ + literal@
            + " (starts with Pong)"@,
        verdict matches Verdict::Failed(t) ==> t@ == "FAIL: expected Pong, got "@ + literal@,
{
}

/// The server of the test is the one that its file describes, asked for the model that it names,
/// and tried again eight times; without a description there is none.
pub proof fn law_the_test_asks_the_described_server(
    cfg: ChobitsConfig,
    r: Result<ResponsesProvider, String>,
)
    requires
        call_ensures(provider_for, (&cfg,), r),
    ensures
        r is Ok <==> cfg.model.responses is Some,
        r matches Ok(p) ==> {
            let described = cfg.model.responses->0;
            &&& p.base_url@ == described.base_url@
            &&& p.api_key_env@ == described.api_key_env@
            &&& p.api_key == described.api_key
            &&& cfg.model.model is Some ==> p.model@ == cfg.model.model->0@
            &&& cfg.model.model is None ==> p.model@ == "gpt-5.2"@
            &&& p.max_retries == 8
            &&& p.timeout_ms == 60_000
        },
{
}

/// The server is asked to answer with `Pong`, and then told `Ping`.
pub proof fn law_the_test_says_ping(asked: Vec<ChatMessage>)
    requires
        call_ensures(question, (), asked),
    ensures
        asked@.len() == 2,
        asked@[0].role == ChatRole::System,
        asked@[1].role == ChatRole::User,
        asked@[1].content@ == "Ping"@,
{
    let lines = chat_lines(asked@);
    assert(lines.len() == asked@.len());
    assert(lines[0] == asked@[0]@);
    assert(lines[1] == asked@[1]@);
}

} // verus!
