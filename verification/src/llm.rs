//! Answering by rule, without a language model.

use vstd::prelude::*;
use vstd::string::*;
use crate::common::{ChatMessage, ChatRole, Envelope, Message, Perception, Sender};
use crate::text::{contains, occurs};

verus! {

/// `s` in lower case, by the rules of Unicode.
pub uninterp spec fn lowercase(s: Seq<char>) -> Seq<char>;

/// `str::to_lowercase` turns a text into its lower-case form, which depends on the
/// text alone.
pub assume_specification[ str::to_lowercase ](s: &str) -> (r: String)
    ensures
        r@ == lowercase(s@),
;

/// What the user said last among `recent`.
pub open spec fn last_user_text(recent: Seq<Envelope<Message>>) -> Option<Seq<char>>
    decreases recent.len(),
{
    if recent.len() == 0 {
        None
    } else if recent.last().sender == Sender::UserSudo {
        Some(recent.last().payload.text@)
    } else {
        last_user_text(recent.drop_last())
    }
}

/// What was last said in the user's part of `prompt`.
pub open spec fn last_user_content(prompt: Seq<ChatMessage>) -> Option<Seq<char>>
    decreases prompt.len(),
{
    if prompt.len() == 0 {
        None
    } else if prompt.last().role == ChatRole::User {
        Some(prompt.last().content@)
    } else {
        last_user_content(prompt.drop_last())
    }
}

/// Whether a user's `text`, in lower case `lowered`, calls for an answer of `agent`:
/// it asks something, mentions the agent, or asks for help.
pub open spec fn calls_for(agent: Seq<char>, text: Seq<char>, lowered: Seq<char>) -> bool {
    ||| text.contains('?')
    ||| text.contains('？')
    ||| occurs(text, "@"@ + agent)
    ||| occurs(lowered, "help"@)
}

/// Whether a one-character text occurs in another.
proof fn lemma_occurs_char(s: Seq<char>, p: Seq<char>, c: char)
    requires
        p == seq![c],
    ensures
        occurs(s, p) == s.contains(c),
{
    if s.contains(c) {
        let i = choose|i: int| 0 <= i < s.len() && s[i] == c;
        assert(s.subrange(i, i + 1) =~= p);
        assert(crate::text::occurs_at(s, p, i));
    }
    if occurs(s, p) {
        let i = choose|i: int| #[trigger] crate::text::occurs_at(s, p, i);
        assert(s.subrange(i, i + 1)[0] == s[i]);
    }
}

/// The provider that follows fixed rules.
#[derive(Debug)]
pub struct RuleBasedProvider;

impl Default for RuleBasedProvider {
    fn default() -> (r: RuleBasedProvider) {
        RuleBasedProvider
    }
}

impl RuleBasedProvider {
    /// Whether `text` mentions `agent`: its name behind an at sign.
    pub fn mentioned(agent: &str, text: &str) -> (r: bool)
        ensures
            r == occurs(text@, "@"@ + agent@),
    {
        let name = "@".to_owned().concat(agent);
        contains(text, name.as_str())
    }

    /// What the user said last.
    pub fn last_user_line(perception: &Perception) -> (r: Option<String>)
        ensures
            match r {
                Some(t) => last_user_text(perception.recent@) == Some(t@),
                None => last_user_text(perception.recent@) is None,
            },
    {
        let mut i: usize = perception.recent.len();
        assert(perception.recent@.take(i as int) =~= perception.recent@);
        while i > 0
            invariant
                i <= perception.recent.len(),
                last_user_text(perception.recent@.take(i as int)) == last_user_text(
                    perception.recent@,
                ),
            decreases i,
        {
            let m = &perception.recent[i - 1];
            assert(perception.recent@.take(i as int).last() == *m);
            assert(perception.recent@.take(i as int).drop_last() =~= perception.recent@.take(i - 1));
            if m.sender.is_user() {
                return Some(m.payload.text.clone());
            }
            i -= 1;
        }
        None
    }

    /// The answer to a prompt: the user's last words, acknowledged.
    pub fn generate(&self, prompt: &Vec<ChatMessage>) -> (r: String)
        ensures
            match last_user_content(prompt@) {
                Some(t) => r@ == "收到："@ + t,
                None => r@ == "……"@,
            },
    {
        let mut i: usize = prompt.len();
        assert(prompt@.take(i as int) =~= prompt@);
        while i > 0
            invariant
                i <= prompt.len(),
                last_user_content(prompt@.take(i as int)) == last_user_content(prompt@),
            decreases i,
        {
            let m = &prompt[i - 1];
            assert(prompt@.take(i as int).last() == *m);
            assert(prompt@.take(i as int).drop_last() =~= prompt@.take(i - 1));
            if m.role == ChatRole::User {
                return "收到：".to_owned().concat(m.content.as_str());
            }
            i -= 1;
        }
        "……".to_owned()
    }

    /// Whether the user's last words call for an answer.
    pub fn should_respond(&self, context: &Perception) -> (r: bool)
        ensures
            r == match last_user_text(context.recent@) {
                Some(t) => calls_for(context.agent_id@, t, lowercase(t)),
                None => false,
            },
    {
        match Self::last_user_line(context) {
            Some(t) => Self::wants_answer(
                context.agent_id.as_str(),
                t.as_str(),
                t.as_str().to_lowercase().as_str(),
            ),
            None => false,
        }
    }

    /// Whether a user's `text`, in lower case `lowered`, calls for an answer of `agent`.
    pub fn wants_answer(agent: &str, text: &str, lowered: &str) -> (r: bool)
        ensures
            r == calls_for(agent@, text@, lowered@),
    {
        proof {
            reveal_strlit("?");
            reveal_strlit("？");
            assert("?"@ =~= seq!['?']);
            assert("？"@ =~= seq!['？']);
            lemma_occurs_char(text@, "?"@, '?');
            lemma_occurs_char(text@, "？"@, '？');
        }
        contains(text, "?") || contains(text, "？") || Self::mentioned(agent, text) || contains(
            lowered,
            "help",
        )
    }
}

/// What the user said last is what the last message of the user says, whatever others said
/// after it; and there is nothing of the kind only where the user said nothing.
pub proof fn law_the_last_words_of_the_user(recent: Seq<Envelope<Message>>, i: int)
    requires
        -1 <= i < recent.len(),
        i >= 0 ==> recent[i].sender == Sender::UserSudo,
        forall|j: int| i < j < recent.len() ==> (#[trigger] recent[j]).sender != Sender::UserSudo,
    ensures
        i >= 0 ==> last_user_text(recent) == Some(recent[i].payload.text@),
        i < 0 ==> last_user_text(recent) is None,
    decreases recent.len(),
{
    if recent.len() > 0 && i < recent.len() - 1 {
        assert(recent[recent.len() - 1].sender != Sender::UserSudo);
        law_the_last_words_of_the_user(recent.drop_last(), i);
    }
}

/// The rules acknowledge what was last said in the user's part, word for word.
pub proof fn law_the_rules_acknowledge_the_user(
    provider: RuleBasedProvider,
    prompt: Vec<ChatMessage>,
    i: int,
    answer: String,
)
    requires
        call_ensures(RuleBasedProvider::generate, (&provider, &prompt), answer),
        -1 <= i < prompt@.len(),
        i >= 0 ==> prompt@[i].role == ChatRole::User,
        forall|j: int| i < j < prompt@.len() ==> (#[trigger] prompt@[j]).role != ChatRole::User,
    ensures
        i >= 0 ==> answer@ == "收到："@ + prompt@[i].content@,
        i < 0 ==> answer@ == "……"@,
{
    lemma_last_user_content(prompt@, i);
}

proof fn lemma_last_user_content(prompt: Seq<ChatMessage>, i: int)
    requires
        -1 <= i < prompt.len(),
        i >= 0 ==> prompt[i].role == ChatRole::User,
        forall|j: int| i < j < prompt.len() ==> (#[trigger] prompt[j]).role != ChatRole::User,
    ensures
        i >= 0 ==> last_user_content(prompt) == Some(prompt[i].content@),
        i < 0 ==> last_user_content(prompt) is None,
    decreases prompt.len(),
{
    if prompt.len() > 0 && i < prompt.len() - 1 {
        assert(prompt[prompt.len() - 1].role != ChatRole::User);
        lemma_last_user_content(prompt.drop_last(), i);
    }
}

/// By the rules an agent answers the user who asks something, names it, or asks for help, at any
/// place in the message, and nobody else; what was said before the user's last words does not
/// count.
pub proof fn law_the_rules_answer_questions(
    provider: RuleBasedProvider,
    context: Perception,
    i: int,
    a: Seq<char>,
    b: Seq<char>,
    respond: bool,
)
    requires
        call_ensures(RuleBasedProvider::should_respond, (&provider, &context), respond),
        -1 <= i < context.recent@.len(),
        i >= 0 ==> context.recent@[i].sender == Sender::UserSudo,
        forall|j: int|
            i < j < context.recent@.len() ==> (#[trigger] context.recent@[j]).sender
                != Sender::UserSudo,
    ensures
        i < 0 ==> !respond,
        i >= 0 ==> {
            let text = context.recent@[i].payload.text@;
            &&& text == a + seq!['?'] + b ==> respond
            &&& text == a + seq!['？'] + b ==> respond
            &&& text == a + ("@"@ + context.agent_id@) + b ==> respond
            &&& lowercase(text) == a + "help"@ + b ==> respond
            &&& !text.contains('?') && !text.contains('？') && !occurs(
                text,
                "@"@ + context.agent_id@,
            ) && !occurs(lowercase(text), "help"@) ==> !respond
        },
{
    law_the_last_words_of_the_user(context.recent@, i);
    if i >= 0 {
        let text = context.recent@[i].payload.text@;
        crate::text::law_parts_occur(a, "@"@ + context.agent_id@, b);
        crate::text::law_parts_occur(a, "help"@, b);
        if text == a + seq!['?'] + b {
            assert(text[a.len() as int] == '?');
        }
        if text == a + seq!['？'] + b {
            assert(text[a.len() as int] == '？');
        }
    }
}

} // verus!
