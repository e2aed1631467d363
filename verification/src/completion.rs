//! Help while a line is typed: what may follow, and how the line is coloured.

use vstd::prelude::*;
use vstd::string::*;
use crate::common::{AgentId, Envelope, Event, SystemNotification, Topic};
use crate::names::{lemma_ordered_once, lemma_sorted_holds, less, ordered, sorted, NameSet};
use crate::text::{
    begins, boundary, byte_len, bytes_in, char_index, chars_before, chars_of, is_white,
    law_a_word_is_itself, law_white_space_parts_words, lemma_chars_before, lemma_offset_increases,
    lemma_without_leading, lemma_without_leading_len,
    lemma_word_len, lemma_word_len_is, offset, offsets, same, split_words, starts_with,
    strip_prefix, texts, trim_start, white, width, without_leading, word_len, words, char_width,
};

verus! {

/// The names that can be offered.
#[verifier::ext_equal]
pub struct KnownNames {
    pub active: Set<Seq<char>>,
    pub known: Set<Seq<char>>,
    pub topics: Set<Seq<char>>,
}

/// The topics that are always offered.
pub open spec fn usual_topics() -> Seq<Seq<char>> {
    seq!["#general"@, "#system"@, "#project_x"@]
}

impl KnownNames {
    /// Nothing is known.
    pub open spec fn nothing() -> KnownNames {
        KnownNames { active: Set::empty(), known: Set::empty(), topics: Set::empty() }
    }

    /// What is known after `n` was heard.
    pub open spec fn told(self, n: SystemNotification) -> KnownNames {
        match n {
            SystemNotification::AgentSpawned { id } => KnownNames {
                active: self.active.insert(id@),
                known: self.known.insert(id@),
                ..self
            },
            SystemNotification::AgentKilled { id } => KnownNames {
                active: self.active.remove(id@),
                known: self.known.insert(id@),
                ..self
            },
            SystemNotification::AgentPurged { id } => KnownNames {
                active: self.active.remove(id@),
                known: self.known.remove(id@),
                ..self
            },
            _ => self,
        }
    }

    /// What is known after an event on `topic` was heard.
    pub open spec fn heard(self, topic: Seq<char>, event: Event) -> KnownNames {
        let with_topic = KnownNames { topics: self.topics.insert(topic), ..self };
        match event {
            Event::SystemNotification(n) => with_topic.told(n),
            _ => with_topic,
        }
    }

    /// The agents that are offered: those that run, and then the others, each in alphabetical
    /// order.
    pub open spec fn agents(self) -> Seq<Seq<char>> {
        sorted(self.active) + sorted(self.known.difference(self.active))
    }

    /// The topics that are offered: the usual ones, and then the others in alphabetical order.
    pub open spec fn offered_topics(self) -> Seq<Seq<char>> {
        usual_topics() + sorted(self.topics.difference(usual_topics().to_set()))
    }
}

/// The names that can be offered while a line is typed.
pub struct CompletionState {
    active_agents: NameSet,
    known_agents: NameSet,
    topics: NameSet,
}

impl View for CompletionState {
    type V = KnownNames;

    closed spec fn view(&self) -> KnownNames {
        KnownNames {
            active: self.active_agents@,
            known: self.known_agents@,
            topics: self.topics@,
        }
    }
}

/// Appends `more` to `list`.
fn extend(list: &mut Vec<String>, more: &Vec<String>)
    ensures
        texts(final(list)@) == texts(old(list)@) + texts(more@),
{
    let ghost before = texts(list@);
    let mut i: usize = 0;
    assert(texts(more@).take(0) =~= Seq::<Seq<char>>::empty());
    assert(texts(list@) =~= before + texts(more@).take(0));
    while i < more.len()
        invariant
            i <= more.len(),
            texts(list@) == before + texts(more@).take(i as int),
        decreases more.len() - i,
    {
        let ghost now = list@;
        list.push(more[i].clone());
        assert(texts(list@) =~= texts(now).push(more@[i as int]@));
        assert(texts(more@).take(i + 1) =~= texts(more@).take(i as int).push(more@[i as int]@));
        assert(texts(list@) =~= before + texts(more@).take(i + 1));
        i += 1;
    }
    assert(texts(more@).take(i as int) =~= texts(more@));
}

impl CompletionState {
    /// The names are kept in order.
    pub closed spec fn wf(&self) -> bool {
        self.active_agents.wf() && self.known_agents.wf() && self.topics.wf()
    }

    /// Only finitely many names are known.
    pub proof fn law_known_names_are_finite(&self)
        requires
            self.wf(),
        ensures
            self@.active.finite(),
            self@.known.finite(),
            self@.topics.finite(),
    {
        self.active_agents.lemma_finite();
        self.known_agents.lemma_finite();
        self.topics.lemma_finite();
    }

    /// Takes note of a topic.
    pub fn note_topic(&mut self, topic: &Topic)
        requires
            old(self).wf(),
        ensures
            final(self).wf(),
            final(self)@ == (KnownNames {
                topics: old(self)@.topics.insert(topic@),
                ..old(self)@
            }),
    {
        self.topics.insert(topic.as_str());
    }

    /// Takes note of an agent that runs now.
    pub fn note_agent_spawned(&mut self, id: &AgentId)
        requires
            old(self).wf(),
        ensures
            final(self).wf(),
            final(self)@ == old(self)@.told(SystemNotification::AgentSpawned { id: *id }),
    {
        self.active_agents.insert(id.as_str());
        self.known_agents.insert(id.as_str());
    }

    /// Takes note of an agent that was stopped.
    pub fn note_agent_killed(&mut self, id: &AgentId)
        requires
            old(self).wf(),
        ensures
            final(self).wf(),
            final(self)@ == old(self)@.told(SystemNotification::AgentKilled { id: *id }),
    {
        self.active_agents.remove(id.as_str());
        self.known_agents.insert(id.as_str());
    }

    /// Takes note of an agent that is gone for good.
    pub fn note_agent_purged(&mut self, id: &AgentId)
        requires
            old(self).wf(),
        ensures
            final(self).wf(),
            final(self)@ == old(self)@.told(SystemNotification::AgentPurged { id: *id }),
    {
        self.active_agents.remove(id.as_str());
        self.known_agents.remove(id.as_str());
    }

    /// Takes note of what happened on the bus.
    pub fn note_event(&mut self, envelope: &Envelope<Event>)
        requires
            old(self).wf(),
        ensures
            final(self).wf(),
            final(self)@ == old(self)@.heard(envelope.topic@, envelope.payload),
    {
        self.note_topic(&envelope.topic);
        match &envelope.payload {
            Event::SystemNotification(n) => match n {
                SystemNotification::AgentSpawned { id } => self.note_agent_spawned(id),
                SystemNotification::AgentKilled { id } => self.note_agent_killed(id),
                SystemNotification::AgentPurged { id } => self.note_agent_purged(id),
                _ => {},
            },
            _ => {},
        }
    }

    /// The agents that are offered.
    pub fn agent_suggestions(&self) -> (r: Vec<String>)
        requires
            self.wf(),
        ensures
            texts(r@) == self@.agents(),
            lists_agents(self@, texts(r@)),
    {
        proof {
            self.law_known_names_are_finite();
            law_agents_are_listed(self@);
        }
        let mut out = self.active_agents.to_vec();
        let others = self.known_agents.to_vec_without(&self.active_agents);
        extend(&mut out, &others);
        out
    }

    /// The topics that are offered.
    pub fn topic_suggestions(&self) -> (r: Vec<String>)
        requires
            self.wf(),
        ensures
            texts(r@) == self@.offered_topics(),
            lists_topics(self@, texts(r@)),
    {
        proof {
            self.law_known_names_are_finite();
            law_topics_are_listed(self@);
        }
        let mut out: Vec<String> = Vec::new();
        out.push("#general".to_owned());
        out.push("#system".to_owned());
        out.push("#project_x".to_owned());
        let mut usual = NameSet::new();
        usual.insert("#general");
        usual.insert("#system");
        usual.insert("#project_x");
        proof {
            assert(texts(out@) =~= usual_topics());
            assert(usual_topics()[0] == "#general"@);
            assert(usual_topics()[1] == "#system"@);
            assert(usual_topics()[2] == "#project_x"@);
            assert(usual@ =~= usual_topics().to_set());
        }
        let others = self.topics.to_vec_without(&usual);
        extend(&mut out, &others);
        out
    }
}

impl Default for CompletionState {
    fn default() -> (r: CompletionState)
        ensures
            r.wf(),
            r@ == KnownNames::nothing(),
    {
        CompletionState {
            active_agents: NameSet::new(),
            known_agents: NameSet::new(),
            topics: NameSet::new(),
        }
    }
}

/// Agents that run are known, whatever is heard.
pub proof fn law_active_agents_are_known(names: KnownNames, topic: Seq<char>, event: Event)
    requires
        names.active.subset_of(names.known),
    ensures
        names.heard(topic, event).active.subset_of(names.heard(topic, event).known),
{
}

/// Whether `list` holds the agents that can be offered: all that run or are known, each once,
/// those that run before the others, and both in alphabetical order.
pub open spec fn lists_agents(names: KnownNames, list: Seq<Seq<char>>) -> bool {
    &&& list.no_duplicates()
    &&& list.to_set() == names.active.union(names.known)
    &&& forall|i: int, j: int|
        0 <= i < j < list.len() && names.active.contains(#[trigger] list[j])
            ==> names.active.contains(#[trigger] list[i])
    &&& forall|i: int, j: int|
        0 <= i < j < list.len() && (names.active.contains(list[i]) == names.active.contains(
            list[j],
        )) ==> less(#[trigger] list[i], #[trigger] list[j])
}

/// Whether `list` holds the topics that can be offered: the usual ones first, and all others
/// that are known, each once, in alphabetical order.
pub open spec fn lists_topics(names: KnownNames, list: Seq<Seq<char>>) -> bool {
    &&& list.no_duplicates()
    &&& list.to_set() == usual_topics().to_set().union(names.topics)
    &&& begins_list(list, usual_topics())
    &&& ordered(list.skip(usual_topics().len() as int))
}

/// Whether `list` begins with the names of `front`.
pub open spec fn begins_list(list: Seq<Seq<char>>, front: Seq<Seq<char>>) -> bool {
    front.len() <= list.len() && list.take(front.len() as int) == front
}

/// Two lists with nothing twice and nothing in common make one with nothing twice, which holds
/// what either holds.
proof fn lemma_two_lists(a: Seq<Seq<char>>, b: Seq<Seq<char>>)
    requires
        a.no_duplicates(),
        b.no_duplicates(),
        forall|n: Seq<char>| !(#[trigger] a.to_set().contains(n) && b.to_set().contains(n)),
    ensures
        (a + b).no_duplicates(),
        (a + b).to_set() == a.to_set().union(b.to_set()),
{
    let l = a + b;
    assert forall|i: int, j: int| 0 <= i < l.len() && 0 <= j < l.len() && i != j implies l[i]
        != l[j] by {
        if i < a.len() {
            assert(a.to_set().contains(l[i]));
        } else {
            assert(l[i] == b[i - a.len()]);
            assert(b.to_set().contains(l[i]));
        }
        if j < a.len() {
            assert(a.to_set().contains(l[j]));
        } else {
            assert(l[j] == b[j - a.len()]);
            assert(b.to_set().contains(l[j]));
        }
    }
    assert forall|n: Seq<char>| l.contains(n) <==> a.contains(n) || b.contains(n) by {
        if a.contains(n) {
            let i = choose|i: int| 0 <= i < a.len() && a[i] == n;
            assert(l[i] == n);
        }
        if b.contains(n) {
            let i = choose|i: int| 0 <= i < b.len() && b[i] == n;
            assert(l[a.len() + i] == n);
        }
        if l.contains(n) {
            let i = choose|i: int| 0 <= i < l.len() && l[i] == n;
            if i >= a.len() {
                assert(b[i - a.len()] == n);
            }
        }
    }
    assert(l.to_set() =~= a.to_set().union(b.to_set()));
}

/// The agents that are offered are those that run and those that are known, each once, those
/// that run first.
pub proof fn law_agents_are_listed(names: KnownNames)
    requires
        names.active.finite(),
        names.known.finite(),
    ensures
        lists_agents(names, names.agents()),
{
    let others = names.known.difference(names.active);
    lemma_sorted_holds(names.active);
    lemma_sorted_holds(others);
    let a = sorted(names.active);
    let b = sorted(others);
    let l = a + b;
    lemma_ordered_once(a);
    lemma_ordered_once(b);
    lemma_two_lists(a, b);
    assert(names.active.union(others) =~= names.active.union(names.known));
    assert forall|i: int| 0 <= i < l.len() implies (names.active.contains(#[trigger] l[i]) <==> i
        < a.len()) by {
        if i < a.len() {
            assert(a.to_set().contains(a[i]));
        } else {
            assert(b.to_set().contains(b[i - a.len()]));
        }
    }
    assert forall|i: int, j: int|
        0 <= i < j < l.len() && (names.active.contains(l[i]) == names.active.contains(
            l[j],
        )) implies less(#[trigger] l[i], #[trigger] l[j]) by {
        if j < a.len() {
            assert(less(a[i], a[j]));
        } else {
            assert(less(b[i - a.len()], b[j - a.len()]));
        }
    }
}

/// The topics that are offered are the usual ones and those that are known, each once.
pub proof fn law_topics_are_listed(names: KnownNames)
    requires
        names.topics.finite(),
    ensures
        lists_topics(names, names.offered_topics()),
{
    let a = usual_topics();
    let others = names.topics.difference(a.to_set());
    lemma_sorted_holds(others);
    let b = sorted(others);
    reveal_strlit("#general");
    reveal_strlit("#system");
    reveal_strlit("#project_x");
    assert("#general"@[1] != "#system"@[1]);
    assert("#general"@[1] != "#project_x"@[1]);
    assert("#system"@[1] != "#project_x"@[1]);
    lemma_ordered_once(b);
    lemma_two_lists(a, b);
    assert(a.to_set().union(others) =~= a.to_set().union(names.topics));
    assert((a + b).take(a.len() as int) =~= a);
    assert((a + b).skip(a.len() as int) =~= b);
}

/// The agents that are offered are those that are known, where those that run are known.
pub proof fn law_known_agents_are_offered(names: KnownNames)
    requires
        names.active.finite(),
        names.known.finite(),
        names.active.subset_of(names.known),
    ensures
        names.agents().to_set() == names.known,
{
    law_agents_are_listed(names);
    assert(names.active.union(names.known) =~= names.known);
}

/// An agent that was purged is not offered any more, and one that was stopped still is.
pub proof fn law_purged_agents_are_not_offered(names: KnownNames, id: AgentId)
    requires
        names.active.finite(),
        names.known.finite(),
        names.active.subset_of(names.known),
    ensures
        !names.told(SystemNotification::AgentPurged { id }).agents().contains(id@),
        names.told(SystemNotification::AgentKilled { id }).agents().contains(id@),
{
    let purged = names.told(SystemNotification::AgentPurged { id });
    let killed = names.told(SystemNotification::AgentKilled { id });
    law_known_agents_are_offered(purged);
    law_known_agents_are_offered(killed);
    assert(!purged.agents().to_set().contains(id@));
    assert(killed.agents().to_set().contains(id@));
}

/// What a stretch of a line is.
#[derive(Clone, Copy, Debug, PartialEq, Eq, Structural)]
pub enum Mark {
    /// A command to the system.
    Command,
    /// A call of a tool.
    Bang,
    /// The name behind an at sign.
    Dm,
    /// A topic.
    Topic,
}

/// A colour.
#[derive(Clone, Copy, Debug, PartialEq, Eq, Structural)]
pub enum Colour {
    Cyan,
    Yellow,
    Purple,
    LightBlue,
}

/// What a stretch of a line looks like.
#[derive(Clone, Copy, Debug, PartialEq, Eq, Structural)]
pub struct Look {
    pub colour: Colour,
    pub bold: bool,
}

/// What a stretch of a line looks like, by what it is. Only commands are bold.
pub fn look(mark: Mark) -> (r: Look)
    ensures
        r.colour == match mark {
            Mark::Command => Colour::Cyan,
            Mark::Bang => Colour::Yellow,
            Mark::Dm => Colour::Purple,
            Mark::Topic => Colour::LightBlue,
        },
        r.bold == (mark == Mark::Command),
{
    match mark {
        Mark::Command => Look { colour: Colour::Cyan, bold: true },
        Mark::Bang => Look { colour: Colour::Yellow, bold: false },
        Mark::Dm => Look { colour: Colour::Purple, bold: false },
        Mark::Topic => Look { colour: Colour::LightBlue, bold: false },
    }
}

/// A stretch of a line, by byte positions, and what it is.
#[derive(Clone, Copy, Debug, PartialEq, Eq, Structural)]
pub struct Highlight {
    pub start: usize,
    pub end: usize,
    pub mark: Mark,
}

/// A stretch of a line, by byte positions, and what it is.
pub struct Stretch {
    pub start: nat,
    pub end: nat,
    pub mark: Mark,
}

impl View for Highlight {
    type V = Stretch;

    open spec fn view(&self) -> Stretch {
        Stretch { start: self.start as nat, end: self.end as nat, mark: self.mark }
    }
}

/// The stretches of a list.
pub open spec fn stretches(list: Seq<Highlight>) -> Seq<Stretch> {
    list.map_values(|h: Highlight| h@)
}

/// How many characters of white space `line` begins with.
pub open spec fn indent(line: Seq<char>) -> int {
    line.len() - without_leading(line).len()
}

/// The stretch from the character `k` of `line` up to the next white space.
pub open spec fn stretch_from(line: Seq<char>, k: int, mark: Mark) -> Stretch {
    Stretch { start: offset(line, k), end: offset(line, k + word_len(line.skip(k))), mark }
}

/// What the first word of a line is, by the character that it begins with.
pub open spec fn head_mark(line: Seq<char>) -> Option<Mark> {
    let rest = without_leading(line);
    if rest.len() == 0 {
        None
    } else if rest[0] == '/' {
        Some(Mark::Command)
    } else if rest[0] == '!' {
        Some(Mark::Bang)
    } else if rest[0] == '@' {
        Some(Mark::Dm)
    } else {
        None
    }
}

/// The stretch that the first word of a line is.
pub open spec fn head_stretches(line: Seq<char>) -> Seq<Stretch> {
    match head_mark(line) {
        Some(mark) => seq![stretch_from(line, indent(line), mark)],
        None => Seq::empty(),
    }
}

/// The topics among the first `n` characters of `line`: each begins with a hash sign, goes on
/// to the next white space, and has a name.
pub open spec fn topic_stretches(line: Seq<char>, n: int) -> Seq<Stretch>
    decreases n,
{
    if n <= 0 {
        Seq::empty()
    } else if line[n - 1] == '#' && word_len(line.skip(n - 1)) > 1 {
        topic_stretches(line, n - 1).push(stretch_from(line, n - 1, Mark::Topic))
    } else {
        topic_stretches(line, n - 1)
    }
}

/// How many characters from the character `k` on are not white space.
fn word_from(cs: &Vec<char>, k: usize) -> (n: usize)
    requires
        k <= cs.len(),
    ensures
        n == word_len(cs@.skip(k as int)),
        k + n <= cs.len(),
{
    let ghost rest = cs@.skip(k as int);
    let mut n: usize = 0;
    while k + n < cs.len() && !is_white(cs[k + n])
        invariant
            k + n <= cs.len(),
            rest == cs@.skip(k as int),
            forall|i: int| 0 <= i < n ==> !white(#[trigger] rest[i]),
        decreases cs.len() - k - n,
    {
        assert(rest[n as int] == cs@[k + n]);
        n += 1;
    }
    proof {
        if k + n < cs.len() {
            assert(rest[n as int] == cs@[k + n]);
        }
        lemma_word_len_is(rest, n as int);
    }
    n
}

/// Who colours the line.
#[derive(Debug)]
pub struct UnicosHighlighter;

impl Default for UnicosHighlighter {
    fn default() -> (r: UnicosHighlighter) {
        UnicosHighlighter
    }
}

impl UnicosHighlighter {
    /// The stretches of `line` that are coloured, in the order in which this is done: the first
    /// word where it is a command, a call or a name, and then the topics.
    pub fn highlight(&self, line: &str) -> (r: Vec<Highlight>)
        ensures
            stretches(r@) == head_stretches(line@) + topic_stretches(line@, line@.len() as int),
    {
        let cs = chars_of(line);
        let at = offsets(line);
        let mut out: Vec<Highlight> = Vec::new();
        proof {
            lemma_without_leading_len(line@);
        }
        let k: usize = cs.len() - trim_start(line).unicode_len();
        proof {
            assert(k == indent(line@));
            assert(line@.skip(k as int) == without_leading(line@));
        }
        let mark = if k == cs.len() {
            None
        } else if cs[k] == '/' {
            Some(Mark::Command)
        } else if cs[k] == '!' {
            Some(Mark::Bang)
        } else if cs[k] == '@' {
            Some(Mark::Dm)
        } else {
            None
        };
        assert(k < line@.len() ==> without_leading(line@)[0] == line@[k as int]);
        assert(mark == head_mark(line@));
        match mark {
            Some(mark) => {
                let n: usize = word_from(&cs, k);
                assert(at@[k as int] == offset(line@, k as int));
                assert(at@[k + n] == offset(line@, k + n));
                out.push(Highlight { start: at[k], end: at[k + n], mark });
            },
            None => {},
        }
        assert(stretches(out@) =~= head_stretches(line@));
        let mut i: usize = 0;
        assert(stretches(out@) =~= head_stretches(line@) + topic_stretches(line@, 0));
        while i < cs.len()
            invariant
                i <= cs.len(),
                cs@ == line@,
                at.len() == line@.len() + 1,
                forall|j: int| 0 <= j <= line@.len() ==> #[trigger] at@[j] == offset(line@, j),
                stretches(out@) == head_stretches(line@) + topic_stretches(line@, i as int),
            decreases cs.len() - i,
        {
            let ghost before = out@;
            if cs[i] == '#' {
                let n: usize = word_from(&cs, i);
                if n > 1 {
                    assert(at@[i as int] == offset(line@, i as int));
                    assert(at@[i + n] == offset(line@, i + n));
                    out.push(Highlight { start: at[i], end: at[i + n], mark: Mark::Topic });
                    assert(stretches(out@) =~= stretches(before).push(
                        stretch_from(line@, i as int, Mark::Topic),
                    ));
                }
            }
            assert(stretches(out@) =~= head_stretches(line@) + topic_stretches(line@, i + 1));
            i += 1;
        }
        out
    }
}

/// Every coloured stretch lies within the line, and is not empty.
pub proof fn law_highlights_stay_inside(line: Seq<char>, n: int)
    requires
        0 <= n <= line.len(),
    ensures
        forall|i: int|
            0 <= i < head_stretches(line).len() ==> {
                &&& (#[trigger] head_stretches(line)[i]).start < head_stretches(line)[i].end
                &&& head_stretches(line)[i].end <= byte_len(line)
            },
        forall|i: int|
            0 <= i < topic_stretches(line, n).len() ==> {
                &&& (#[trigger] topic_stretches(line, n)[i]).start < topic_stretches(line, n)[i].end
                &&& topic_stretches(line, n)[i].end <= byte_len(line)
            },
    decreases n,
{
    lemma_without_leading_len(line);
    let k = indent(line);
    if head_mark(line) is Some {
        assert(line.skip(k)[0] == without_leading(line)[0]);
        lemma_stretch(line, k);
    }
    if n > 0 {
        law_highlights_stay_inside(line, n - 1);
        if line[n - 1] == '#' && word_len(line.skip(n - 1)) > 1 {
            lemma_stretch(line, n - 1);
        }
    }
}

proof fn lemma_stretch(line: Seq<char>, k: int)
    requires
        0 <= k < line.len(),
        !white(line[k]),
    ensures
        offset(line, k) < offset(line, k + word_len(line.skip(k))) <= byte_len(line),
{
    let rest = line.skip(k);
    lemma_word_len(rest);
    let e = k + word_len(rest);
    assert(rest[0] == line[k]);
    assert(word_len(rest) > 0);
    lemma_offset_increases(line, k, e);
    assert(line.take(line.len() as int) =~= line);
    if e < line.len() {
        lemma_offset_increases(line, e, line.len() as int);
    }
}

/// How many characters at the end of `s` are not white space.
pub open spec fn tail_len(s: Seq<char>) -> nat
    decreases s.len(),
{
    if s.len() > 0 && !white(s.last()) {
        1 + tail_len(s.drop_last())
    } else {
        0
    }
}

/// How many characters stand in `line` before the cursor at the byte `pos`.
pub open spec fn cursor(line: Seq<char>, pos: nat) -> int {
    chars_before(line, if pos <= byte_len(line) { pos } else { byte_len(line) })
}

/// Whether the word at the byte `pos` of `line` can be told: the cursor stands between two
/// characters, and the white space before the word is one byte wide.
pub open spec fn spannable(line: Seq<char>, pos: nat) -> bool {
    let k = cursor(line, pos);
    let n = tail_len(line.take(k));
    &&& boundary(line, if pos <= byte_len(line) { pos } else { byte_len(line) })
    &&& n < k ==> width(line[k - n - 1]) == 1
}

/// Where the word at the byte `pos` begins, in bytes.
pub open spec fn span_start(line: Seq<char>, pos: nat) -> nat {
    let k = cursor(line, pos);
    offset(line, k - tail_len(line.take(k)))
}

/// Where the word at the byte `pos` ends, in bytes.
pub open spec fn span_end(line: Seq<char>, pos: nat) -> nat {
    let k = cursor(line, pos);
    offset(line, k + word_len(line.skip(k)))
}

/// The part of the word at the byte `pos` that stands before the cursor.
pub open spec fn typed(line: Seq<char>, pos: nat) -> Seq<char> {
    let k = cursor(line, pos);
    line.subrange(k - tail_len(line.take(k)), k)
}

/// How many characters before the character `k` are not white space.
fn word_before(cs: &Vec<char>, k: usize) -> (n: usize)
    requires
        k <= cs.len(),
    ensures
        n == tail_len(cs@.take(k as int)),
        n <= k,
        n < k ==> white(cs@[k - n - 1]),
{
    let mut n: usize = 0;
    while n < k && !is_white(cs[k - n - 1])
        invariant
            n <= k <= cs.len(),
            tail_len(cs@.take(k as int)) == n + tail_len(cs@.take(k - n)),
        decreases k - n,
    {
        assert(cs@.take(k - n).drop_last() =~= cs@.take(k - n - 1));
        n += 1;
    }
    n
}

/// What is offered in place of a stretch of the line.
#[derive(Debug)]
pub struct Suggestion {
    pub value: String,
    pub description: String,
    pub start: usize,
    pub end: usize,
    pub append_whitespace: bool,
}

/// What is offered in place of a stretch of the line.
#[verifier::ext_equal]
pub struct Offer {
    pub value: Seq<char>,
    pub description: Seq<char>,
    pub start: nat,
    pub end: nat,
    pub append_whitespace: bool,
}

impl View for Suggestion {
    type V = Offer;

    open spec fn view(&self) -> Offer {
        Offer {
            value: self.value@,
            description: self.description@,
            start: self.start as nat,
            end: self.end as nat,
            append_whitespace: self.append_whitespace,
        }
    }
}

/// What a list of suggestions offers.
pub open spec fn offers(list: Seq<Suggestion>) -> Seq<Offer> {
    list.map_values(|s: Suggestion| s@)
}

/// The commands that are offered, each with what it does.
pub open spec fn known_commands() -> Seq<(Seq<char>, Seq<char>)> {
    seq![
        ("/ping"@, "daemon connectivity"@),
        ("/agents"@, "list running agents"@),
        ("/topic"@, "switch current topic"@),
        ("/dm"@, "switch to dm with agent"@),
        ("/spawn"@, "spawn agent"@),
        ("/kill"@, "kill agent"@),
        ("/purge"@, "delete agent on disk (needs confirm)"@),
        ("/join"@, "agent join topic"@),
        ("/sleep"@, "sleep agent"@),
        ("/wake"@, "wake agent"@),
        ("/quit"@, "exit cli"@),
        ("/exit"@, "exit cli"@),
    ]
}

/// The names, each with the same description.
pub open spec fn described(names: Seq<Seq<char>>, description: Seq<char>) -> Seq<
    (Seq<char>, Seq<char>),
> {
    names.map_values(|n: Seq<char>| (n, description))
}

/// Those of `candidates` that begin with `prefix`, with `lead` in front, as offers for the
/// stretch from `start` to `end`.
pub open spec fn offered(
    candidates: Seq<(Seq<char>, Seq<char>)>,
    prefix: Seq<char>,
    lead: Seq<char>,
    start: nat,
    end: nat,
) -> Seq<Offer>
    decreases candidates.len(),
{
    if candidates.len() == 0 {
        Seq::empty()
    } else {
        let before = offered(candidates.drop_last(), prefix, lead, start, end);
        let (value, description) = candidates.last();
        if begins(value, prefix) {
            before.push(
                Offer { value: lead + value, description, start, end, append_whitespace: true },
            )
        } else {
            before
        }
    }
}

/// Whether the first argument of a command is an agent.
pub open spec fn takes_agent(command: Seq<char>) -> bool {
    ||| command == "/kill"@
    ||| command == "/sleep"@
    ||| command == "/wake"@
    ||| command == "/purge"@
    ||| command == "/dm"@
    ||| command == "/join"@
}

/// What the line could hold at the cursor: candidates with their descriptions, by the words
/// `before` the cursor.
pub open spec fn candidates(names: KnownNames, before: Seq<Seq<char>>) -> Seq<
    (Seq<char>, Seq<char>),
> {
    if before.len() <= 1 {
        known_commands()
    } else if takes_agent(before[0]) && before.len() == 2 {
        described(names.agents(), "agent"@)
    } else if (before[0] == "/topic"@ && before.len() == 2) || (before[0] == "/join"@
        && before.len() == 3) {
        described(names.offered_topics(), "topic"@)
    } else {
        Seq::empty()
    }
}

/// `s` without an at sign at its front.
pub open spec fn without_at(s: Seq<char>) -> Seq<char> {
    if begins(s, "@"@) {
        s.skip(1)
    } else {
        s
    }
}

/// What is offered for `line` with the cursor at the byte `pos`: names behind an at sign,
/// and commands with their arguments.
pub open spec fn completions(names: KnownNames, line: Seq<char>, pos: nat) -> Seq<Offer> {
    let start = span_start(line, pos);
    let end = span_end(line, pos);
    let prefix = typed(line, pos);
    if begins(without_leading(line), "@"@) {
        offered(described(names.agents(), "dm"@), without_at(prefix), "@"@, start, end)
    } else if begins(without_leading(line), "/"@) {
        offered(
            candidates(names, words(line.take(cursor(line, pos)))),
            prefix,
            ""@,
            start,
            end,
        )
    } else {
        Seq::empty()
    }
}

/// Appends one offer, if `value` begins with `prefix`.
fn offer(
    list: &mut Vec<Suggestion>,
    value: &str,
    description: &str,
    prefix: &str,
    lead: &str,
    start: usize,
    end: usize,
)
    ensures
        begins(value@, prefix@) ==> offers(final(list)@) == offers(old(list)@).push(
            Offer {
                value: lead@ + value@,
                description: description@,
                start: start as nat,
                end: end as nat,
                append_whitespace: true,
            },
        ),
        !begins(value@, prefix@) ==> final(list)@ == old(list)@,
{
    if starts_with(value, prefix) {
        let ghost before = list@;
        let s = Suggestion {
            value: lead.to_owned().concat(value),
            description: description.to_owned(),
            start,
            end,
            append_whitespace: true,
        };
        let ghost seen = s@;
        list.push(s);
        assert(offers(list@) =~= offers(before).push(seen));
    }
}

/// The names that begin with `prefix`, as offers.
fn offer_names(
    names: &Vec<String>,
    description: &str,
    prefix: &str,
    lead: &str,
    start: usize,
    end: usize,
) -> (r: Vec<Suggestion>)
    ensures
        offers(r@) == offered(
            described(texts(names@), description@),
            prefix@,
            lead@,
            start as nat,
            end as nat,
        ),
{
    let ghost all = described(texts(names@), description@);
    let mut out: Vec<Suggestion> = Vec::new();
    let mut i: usize = 0;
    assert(all.take(0) =~= Seq::<(Seq<char>, Seq<char>)>::empty());
    assert(offers(out@) =~= Seq::<Offer>::empty());
    while i < names.len()
        invariant
            i <= names.len(),
            all == described(texts(names@), description@),
            offers(out@) == offered(all.take(i as int), prefix@, lead@, start as nat, end as nat),
        decreases names.len() - i,
    {
        assert(all.take(i + 1).drop_last() =~= all.take(i as int));
        assert(all.take(i + 1).last() == (names@[i as int]@, description@));
        offer(&mut out, names[i].as_str(), description, prefix, lead, start, end);
        i += 1;
    }
    assert(all.take(i as int) =~= all);
    out
}

/// Who offers what may follow.
#[derive(Debug)]
pub struct UnicosCompleter {
    commands: Vec<(&'static str, &'static str)>,
}

impl UnicosCompleter {
    /// The commands that are offered.
    pub closed spec fn listed(&self) -> Seq<(Seq<char>, Seq<char>)> {
        self.commands@.map_values(|c: (&'static str, &'static str)| (c.0@, c.1@))
    }

    /// All commands are offered.
    pub open spec fn wf(&self) -> bool {
        self.listed() == known_commands()
    }

    /// One that offers all commands.
    pub fn new() -> (r: UnicosCompleter)
        ensures
            r.wf(),
    {
        let mut commands: Vec<(&'static str, &'static str)> = Vec::new();
        commands.push(("/ping", "daemon connectivity"));
        commands.push(("/agents", "list running agents"));
        commands.push(("/topic", "switch current topic"));
        commands.push(("/dm", "switch to dm with agent"));
        commands.push(("/spawn", "spawn agent"));
        commands.push(("/kill", "kill agent"));
        commands.push(("/purge", "delete agent on disk (needs confirm)"));
        commands.push(("/join", "agent join topic"));
        commands.push(("/sleep", "sleep agent"));
        commands.push(("/wake", "wake agent"));
        commands.push(("/quit", "exit cli"));
        commands.push(("/exit", "exit cli"));
        let r = UnicosCompleter { commands };
        assert(r.listed() =~= known_commands());
        r
    }

    /// Where the word at the byte `pos` begins and ends, in bytes, and what of it stands before
    /// the cursor. A cursor behind the end of the line stands at its end.
    pub fn word_span(line: &str, pos: usize) -> (r: (usize, usize, &str))
        requires
            spannable(line@, pos as nat),
        ensures
            r.0 == span_start(line@, pos as nat),
            r.1 == span_end(line@, pos as nat),
            r.2@ == typed(line@, pos as nat),
    {
        let total: usize = bytes_in(line);
        let p: usize = if pos <= total { pos } else { total };
        let cs = chars_of(line);
        let at = offsets(line);
        let k: usize = match char_index(line, p) {
            Some(k) => k,
            None => 0,
        };
        let before: usize = word_before(&cs, k);
        let behind: usize = word_from(&cs, k);
        assert(at@[k - before] == offset(line@, k - before));
        assert(at@[k + behind] == offset(line@, k + behind));
        (at[k - before], at[k + behind], line.substring_char(k - before, k))
    }

    /// The words of `line`.
    pub fn tokenize(line: &str) -> (r: Vec<String>)
        ensures
            texts(r@) == words(line@),
    {
        split_words(line)
    }

    /// Whether the first argument of a command is an agent.
    fn completes_agent(command: &str) -> (r: bool)
        ensures
            r == takes_agent(command@),
    {
        same(command, "/kill") || same(command, "/sleep") || same(command, "/wake") || same(
            command,
            "/purge",
        ) || same(command, "/dm") || same(command, "/join")
    }

    /// The commands that begin with `prefix`, as offers.
    fn offer_commands(&self, prefix: &str, start: usize, end: usize) -> (r: Vec<Suggestion>)
        requires
            self.wf(),
        ensures
            offers(r@) == offered(known_commands(), prefix@, ""@, start as nat, end as nat),
    {
        let ghost all = known_commands();
        let mut out: Vec<Suggestion> = Vec::new();
        let mut i: usize = 0;
        assert(all.take(0) =~= Seq::<(Seq<char>, Seq<char>)>::empty());
        assert(offers(out@) =~= Seq::<Offer>::empty());
        while i < self.commands.len()
            invariant
                i <= self.commands.len(),
                self.wf(),
                all == known_commands(),
                offers(out@) == offered(all.take(i as int), prefix@, ""@, start as nat, end as nat),
            decreases self.commands.len() - i,
        {
            let (command, description) = self.commands[i];
            assert(self.listed()[i as int] == (command@, description@));
            assert(all.take(i + 1).drop_last() =~= all.take(i as int));
            assert(all.take(i + 1).last() == (command@, description@));
            offer(&mut out, command, description, prefix, "", start, end);
            i += 1;
        }
        assert(self.listed().len() == self.commands.len());
        assert(all.take(i as int) =~= all);
        out
    }

    /// What is offered for `line` with the cursor at the byte `pos`.
    pub fn complete(&self, state: &CompletionState, line: &str, pos: usize) -> (r: Vec<Suggestion>)
        requires
            self.wf(),
            state.wf(),
            spannable(line@, pos as nat),
            pos <= byte_len(line@) || begins(without_leading(line@), "@"@),
        ensures
            offers(r@) == completions(state@, line@, pos as nat),
    {
        proof {
            reveal_strlit("@");
        }
        let trimmed = trim_start(line);
        let (start, end, prefix) = Self::word_span(line, pos);
        if starts_with(trimmed, "@") {
            let name = match strip_prefix(prefix, "@") {
                Some(rest) => rest,
                None => prefix,
            };
            assert(name@ == without_at(prefix@));
            return offer_names(&state.agent_suggestions(), "dm", name, "@", start, end);
        }
        if !starts_with(trimmed, "/") {
            let out: Vec<Suggestion> = Vec::new();
            assert(offers(out@) =~= Seq::<Offer>::empty());
            return out;
        }
        let k: usize = match char_index(line, pos) {
            Some(k) => k,
            None => 0,
        };
        let typed_line = line.substring_char(0, k);
        assert(typed_line@ =~= line@.take(cursor(line@, pos as nat)));
        let tokens = Self::tokenize(typed_line);
        let ghost before = words(line@.take(cursor(line@, pos as nat)));
        assert(texts(tokens@).len() == tokens.len());
        if tokens.len() <= 1 {
            return self.offer_commands(prefix, start, end);
        }
        let command = tokens[0].as_str();
        assert(command@ == before[0]);
        if Self::completes_agent(command) && tokens.len() == 2 {
            return offer_names(&state.agent_suggestions(), "agent", prefix, "", start, end);
        }
        if (same(command, "/topic") && tokens.len() == 2) || (same(command, "/join")
            && tokens.len() == 3) {
            return offer_names(&state.topic_suggestions(), "topic", prefix, "", start, end);
        }
        let out: Vec<Suggestion> = Vec::new();
        assert(offers(out@) =~= Seq::<Offer>::empty());
        out
    }

    /// Whether the word at the byte `pos` of `line` can be told.
    pub fn is_spannable(line: &str, pos: usize) -> (r: bool)
        ensures
            r == spannable(line@, pos as nat),
    {
        let total: usize = bytes_in(line);
        let p: usize = if pos <= total { pos } else { total };
        let cs = chars_of(line);
        match char_index(line, p) {
            Some(k) => {
                let n: usize = word_before(&cs, k);
                n == k || char_width(cs[k - n - 1]) == 1
            },
            None => false,
        }
    }
}

/// Everything that is offered goes on from what was typed.
pub proof fn law_offers_go_on_from_the_prefix(
    candidates: Seq<(Seq<char>, Seq<char>)>,
    prefix: Seq<char>,
    lead: Seq<char>,
    start: nat,
    end: nat,
)
    ensures
        forall|i: int|
            0 <= i < offered(candidates, prefix, lead, start, end).len() ==> begins(
                (#[trigger] offered(candidates, prefix, lead, start, end)[i]).value,
                lead + prefix,
            ),
    decreases candidates.len(),
{
    if candidates.len() > 0 {
        law_offers_go_on_from_the_prefix(candidates.drop_last(), prefix, lead, start, end);
        let value = candidates.last().0;
        let before = offered(candidates.drop_last(), prefix, lead, start, end);
        let after = offered(candidates, prefix, lead, start, end);
        if begins(value, prefix) {
            assert((lead + value).take((lead + prefix).len() as int) =~= lead + value.take(
                prefix.len() as int,
            ));
        }
        assert forall|i: int| 0 <= i < after.len() implies begins(
            (#[trigger] after[i]).value,
            lead + prefix,
        ) by {
            if i < before.len() {
                assert(after[i] == before[i]);
            }
        }
    }
}

/// The word at the cursor begins no later than the cursor, and ends no earlier.
#[verifier::spinoff_prover]
pub proof fn law_cursor_stands_in_its_word(line: Seq<char>, pos: nat)
    requires
        spannable(line, pos),
        pos <= byte_len(line),
    ensures
        span_start(line, pos) <= pos <= span_end(line, pos) <= byte_len(line),
{
    let k = cursor(line, pos);
    assert(boundary(line, pos));
    assert(0 <= k <= line.len() && offset(line, k) == pos);
    let n = tail_len(line.take(k)) as int;
    lemma_tail_len(line.take(k));
    if n > 0 {
        lemma_offset_increases(line, k - n, k);
    }
    let rest = line.skip(k);
    lemma_word_len(rest);
    let e = k + word_len(rest);
    if k < e {
        lemma_offset_increases(line, k, e);
    }
    assert(line.take(line.len() as int) =~= line);
    if e < line.len() {
        lemma_offset_increases(line, e, line.len() as int);
    }
}

proof fn lemma_tail_len(s: Seq<char>)
    ensures
        tail_len(s) <= s.len(),
    decreases s.len(),
{
    if s.len() > 0 && !white(s.last()) {
        lemma_tail_len(s.drop_last());
    }
}

/// Every topic of a line is coloured from its hash sign to the end of its word.
pub proof fn law_every_topic_is_coloured(line: Seq<char>, n: int, k: int, e: int)
    requires
        0 <= k < n <= line.len(),
        line[k] == '#',
        k + 2 <= e <= line.len(),
        forall|j: int| k <= j < e ==> !white(#[trigger] line[j]),
        e < line.len() ==> white(line[e]),
    ensures
        exists|i: int|
            0 <= i < topic_stretches(line, n).len() && #[trigger] topic_stretches(line, n)[i] == (
            Stretch {
                start: byte_len(line.take(k)),
                end: byte_len(line.take(e)),
                mark: Mark::Topic,
            }),
    decreases n,
{
    let all = topic_stretches(line, n);
    let wanted = Stretch {
        start: byte_len(line.take(k)),
        end: byte_len(line.take(e)),
        mark: Mark::Topic,
    };
    if k == n - 1 {
        let rest = line.skip(k);
        assert forall|j: int| 0 <= j < e - k implies !white(#[trigger] rest[j]) by {
            assert(rest[j] == line[k + j]);
        }
        if e < line.len() {
            assert(rest[e - k] == line[e]);
        }
        lemma_word_len_is(rest, e - k);
        assert(all.last() == wanted);
        assert(all[all.len() - 1] == wanted);
    } else {
        law_every_topic_is_coloured(line, n - 1, k, e);
        let before = topic_stretches(line, n - 1);
        let i = choose|i: int| 0 <= i < before.len() && #[trigger] before[i] == wanted;
        assert(all[i] == wanted);
    }
}

/// Whoever colours a line colours every topic in it.
pub proof fn law_all_topics_of_a_line_are_coloured(
    highlighter: UnicosHighlighter,
    line: &str,
    marks: Vec<Highlight>,
    k: int,
    e: int,
)
    requires
        call_ensures(UnicosHighlighter::highlight, (&highlighter, line), marks),
        0 <= k < line@.len(),
        line@[k] == '#',
        k + 2 <= e <= line@.len(),
        forall|j: int| k <= j < e ==> !white(#[trigger] line@[j]),
        e < line@.len() ==> white(line@[e]),
    ensures
        exists|i: int|
            0 <= i < marks@.len() && (#[trigger] marks@[i]).mark == Mark::Topic && marks@[i].start
                == byte_len(line@.take(k)) && marks@[i].end == byte_len(line@.take(e)),
{
    law_every_topic_is_coloured(line@, line@.len() as int, k, e);
    let head = head_stretches(line@);
    let topics = topic_stretches(line@, line@.len() as int);
    let wanted = Stretch {
        start: byte_len(line@.take(k)),
        end: byte_len(line@.take(e)),
        mark: Mark::Topic,
    };
    let i = choose|i: int| 0 <= i < topics.len() && #[trigger] topics[i] == wanted;
    let all = stretches(marks@);
    assert(all.len() == marks@.len());
    assert(all[head.len() + i] == topics[i]);
    assert(all[head.len() + i] == marks@[head.len() + i]@);
}

/// Nothing is coloured as a topic but what begins with a hash sign.
pub proof fn law_only_topics_are_coloured_as_topics(line: Seq<char>, n: int, i: int) -> (k: int)
    requires
        0 <= n <= line.len(),
        0 <= i < topic_stretches(line, n).len(),
    ensures
        0 <= k < n,
        line[k] == '#',
        topic_stretches(line, n)[i].start == byte_len(line.take(k)),
        topic_stretches(line, n)[i].mark == Mark::Topic,
    decreases n,
{
    let before = topic_stretches(line, n - 1);
    if i < before.len() {
        law_only_topics_are_coloured_as_topics(line, n - 1, i)
    } else {
        n - 1
    }
}

/// The first word of a line is coloured whole, by the character that it begins with: commands
/// behind a slash, calls behind an exclamation mark, and names behind an at sign. No other word
/// is coloured as one of these.
pub proof fn law_the_first_word_is_coloured(
    highlighter: UnicosHighlighter,
    line: &str,
    front: Seq<char>,
    word: Seq<char>,
    back: Seq<char>,
    marks: Vec<Highlight>,
)
    requires
        call_ensures(UnicosHighlighter::highlight, (&highlighter, line), marks),
        line@ == front + word + back,
        forall|i: int| 0 <= i < front.len() ==> white(#[trigger] front[i]),
        word.len() > 0,
        forall|i: int| 0 <= i < word.len() ==> !white(#[trigger] word[i]),
        back.len() > 0 ==> white(back[0]),
    ensures
        word[0] == '/' || word[0] == '!' || word[0] == '@' ==> {
            &&& marks@.len() > 0
            &&& marks@[0].start == byte_len(front)
            &&& marks@[0].end == byte_len(front + word)
            &&& word[0] == '/' ==> marks@[0].mark == Mark::Command
            &&& word[0] == '!' ==> marks@[0].mark == Mark::Bang
            &&& word[0] == '@' ==> marks@[0].mark == Mark::Dm
            &&& forall|i: int| 0 < i < marks@.len() ==> (#[trigger] marks@[i]).mark == Mark::Topic
        },
        word[0] != '/' && word[0] != '!' && word[0] != '@' ==> forall|i: int|
            0 <= i < marks@.len() ==> (#[trigger] marks@[i]).mark == Mark::Topic,
{
    let s = line@;
    let k = front.len() as int;
    assert(s[k] == word[0]);
    assert(!white(word[0]));
    lemma_without_leading(s, k);
    let rest = s.skip(k);
    assert(rest =~= word + back);
    assert forall|i: int| 0 <= i < word.len() implies !white(#[trigger] rest[i]) by {
        assert(rest[i] == word[i]);
    }
    if back.len() > 0 {
        assert(rest[word.len() as int] == back[0]);
    }
    lemma_word_len_is(rest, word.len() as int);
    assert(indent(s) == k);
    assert(s.take(k) =~= front);
    assert(s.take(k + word.len()) =~= front + word);
    let head = head_stretches(s);
    let topics = topic_stretches(s, s.len() as int);
    let all = stretches(marks@);
    assert(all.len() == marks@.len());
    assert forall|i: int| 0 <= i < marks@.len() implies all[i] == (#[trigger] marks@[i])@ by {}
    assert forall|i: int| head.len() <= i < marks@.len() implies (#[trigger] marks@[i]).mark
        == Mark::Topic by {
        assert(all[i] == topics[i - head.len()]);
        let _ = law_only_topics_are_coloured_as_topics(s, s.len() as int, i - head.len());
    }
    if head.len() > 0 {
        assert(all[0] == head[0]);
        assert(marks@[0]@ == head[0]);
    }
}

/// What is heard is kept in mind: the topic of every event can be offered from then on; an agent
/// that was let run is one that runs; one that was stopped is still known; one that was purged is
/// not. All other names stay as they are.
pub proof fn law_what_is_heard_is_kept_in_mind(
    names: KnownNames,
    topic: Seq<char>,
    event: Event,
    other: Seq<char>,
)
    ensures
        ({
            let after = names.heard(topic, event);
            &&& after.topics.contains(topic)
            &&& other != topic ==> after.topics.contains(other) == names.topics.contains(other)
            &&& match event {
                Event::SystemNotification(SystemNotification::AgentSpawned { id }) => {
                    &&& after.active.contains(id@)
                    &&& after.known.contains(id@)
                    &&& other != id@ ==> after.active.contains(other) == names.active.contains(
                        other,
                    ) && after.known.contains(other) == names.known.contains(other)
                },
                Event::SystemNotification(SystemNotification::AgentKilled { id }) => {
                    &&& !after.active.contains(id@)
                    &&& after.known.contains(id@)
                    &&& other != id@ ==> after.active.contains(other) == names.active.contains(
                        other,
                    ) && after.known.contains(other) == names.known.contains(other)
                },
                Event::SystemNotification(SystemNotification::AgentPurged { id }) => {
                    &&& !after.active.contains(id@)
                    &&& !after.known.contains(id@)
                    &&& other != id@ ==> after.active.contains(other) == names.active.contains(
                        other,
                    ) && after.known.contains(other) == names.known.contains(other)
                },
                _ => after.active == names.active && after.known == names.known,
            }
        }),
{
}

/// All that begins with what was typed is offered, and nothing else, in the order of the
/// candidates, whatever the others are: whole, with what it is, and in place of the typed word.
pub proof fn law_all_that_fits_is_offered(
    a: Seq<(Seq<char>, Seq<char>)>,
    b: Seq<(Seq<char>, Seq<char>)>,
    value: Seq<char>,
    description: Seq<char>,
    prefix: Seq<char>,
    lead: Seq<char>,
    start: nat,
    end: nat,
)
    ensures
        offered(a + b, prefix, lead, start, end) == offered(a, prefix, lead, start, end) + offered(
            b,
            prefix,
            lead,
            start,
            end,
        ),
        begins(value, prefix) ==> offered(
            seq![(value, description)],
            prefix,
            lead,
            start,
            end,
        ) == seq![Offer { value: lead + value, description, start, end, append_whitespace: true }],
        !begins(value, prefix) ==> offered(
            seq![(value, description)],
            prefix,
            lead,
            start,
            end,
        ).len() == 0,
    decreases b.len(),
{
    let one = seq![(value, description)];
    let none = Seq::<(Seq<char>, Seq<char>)>::empty();
    assert(one.drop_last() =~= none);
    assert(offered(none, prefix, lead, start, end) =~= Seq::<Offer>::empty());
    assert(begins(value, prefix) ==> offered(one, prefix, lead, start, end) =~= seq![
        Offer { value: lead + value, description, start, end, append_whitespace: true },
    ]);
    if b.len() == 0 {
        assert(a + b =~= a);
        assert(offered(a, prefix, lead, start, end) + offered(b, prefix, lead, start, end)
            =~= offered(a, prefix, lead, start, end));
    } else {
        law_all_that_fits_is_offered(
            a,
            b.drop_last(),
            value,
            description,
            prefix,
            lead,
            start,
            end,
        );
        assert((a + b).drop_last() =~= a + b.drop_last());
        assert(offered(a + b, prefix, lead, start, end) =~= offered(a, prefix, lead, start, end)
            + offered(b, prefix, lead, start, end));
    }
}

/// The cursor behind the last word of a line: what was typed of the word is the whole of it.
#[verifier::spinoff_prover]
proof fn lemma_at_the_end(line: Seq<char>, front: Seq<char>, word: Seq<char>)
    requires
        line == front + word,
        front.len() > 0 ==> white(front.last()),
        forall|i: int| 0 <= i < word.len() ==> !white(#[trigger] word[i]),
    ensures
        cursor(line, byte_len(line)) == line.len(),
        typed(line, byte_len(line)) == word,
        span_start(line, byte_len(line)) == byte_len(front),
        span_end(line, byte_len(line)) == byte_len(line),
{
    let n = line.len() as int;
    assert(line.take(n) =~= line);
    assert(offset(line, n) == byte_len(line));
    lemma_chars_before(line, n);
    assert(cursor(line, byte_len(line)) == n);
    lemma_tail(line, front, word);
    assert(line.skip(n).len() == 0);
    assert(word_len(line.skip(n)) == 0);
    assert(line.take(n - word.len()) =~= front);
    assert(line.subrange(n - word.len(), n) =~= word);
}

proof fn lemma_tail(line: Seq<char>, front: Seq<char>, word: Seq<char>)
    requires
        line == front + word,
        front.len() > 0 ==> white(front.last()),
        forall|i: int| 0 <= i < word.len() ==> !white(#[trigger] word[i]),
    ensures
        tail_len(line) == word.len(),
    decreases word.len(),
{
    if word.len() == 0 {
        assert(line =~= front);
    } else {
        let shorter = word.drop_last();
        assert(line.last() == word[word.len() - 1]);
        assert(line.drop_last() =~= front + shorter);
        assert forall|i: int| 0 <= i < shorter.len() implies !white(#[trigger] shorter[i]) by {
            assert(shorter[i] == word[i]);
        }
        lemma_tail(line.drop_last(), front, shorter);
    }
}

/// Behind a command that takes an agent the agents are offered that begin with what was typed,
/// and behind the command that takes a topic the topics, each in place of the typed word.
pub proof fn law_arguments_are_offered(
    names: KnownNames,
    command: Seq<char>,
    prefix: Seq<char>,
)
    requires
        command == "/kill"@ || command == "/sleep"@ || command == "/wake"@ || command == "/purge"@
            || command == "/dm"@ || command == "/join"@ || command == "/topic"@,
        prefix.len() > 0,
        forall|i: int| 0 <= i < prefix.len() ==> !white(#[trigger] prefix[i]),
    ensures
        ({
            let front = command + seq![' '];
            let line = front + prefix;
            completions(names, line, byte_len(line)) == offered(
                if command == "/topic"@ {
                    described(names.offered_topics(), "topic"@)
                } else {
                    described(names.agents(), "agent"@)
                },
                prefix,
                ""@,
                byte_len(front),
                byte_len(line),
            )
        }),
{
    reveal_strlit("/kill");
    reveal_strlit("/sleep");
    reveal_strlit("/wake");
    reveal_strlit("/purge");
    reveal_strlit("/dm");
    reveal_strlit("/join");
    reveal_strlit("/topic");
    reveal_strlit("/");
    reveal_strlit("@");
    let front = command + seq![' '];
    let line = front + prefix;
    assert(command[0] == '/');
    assert forall|i: int| 0 <= i < command.len() implies !white(#[trigger] command[i]) by {
        assert(command[i] == '/' || 'a' <= command[i] <= 'z');
    }
    assert(front.last() == ' ');
    lemma_at_the_end(line, front, prefix);
    assert(line[0] == '/');
    assert(without_leading(line) == line);
    assert(line.take(1) =~= "/"@);
    assert(line.take(1)[0] == '/');
    assert("@"@[0] == '@');
    assert(line.take(line.len() as int) =~= line);
    law_white_space_parts_words(command, ' ', prefix);
    law_a_word_is_itself(command);
    law_a_word_is_itself(prefix);
    let before = words(line);
    assert(before =~= seq![command, prefix]);
    if command == "/topic"@ {
        assert("/topic"@[1] == 't');
        assert("/kill"@[1] == 'k' && "/sleep"@[1] == 's' && "/wake"@[1] == 'w' && "/purge"@[1]
            == 'p' && "/dm"@[1] == 'd' && "/join"@[1] == 'j');
    } else {
        assert(takes_agent(command));
    }
}

/// Behind an at sign the agents are offered whose names begin with what was typed, and behind a
/// slash the commands.
pub proof fn law_names_and_commands_are_offered(names: KnownNames, prefix: Seq<char>)
    requires
        forall|i: int| 0 <= i < prefix.len() ==> !white(#[trigger] prefix[i]),
    ensures
        ({
            let line = "@"@ + prefix;
            completions(names, line, byte_len(line)) == offered(
                described(names.agents(), "dm"@),
                prefix,
                "@"@,
                0,
                byte_len(line),
            )
        }),
        ({
            let line = "/"@ + prefix;
            completions(names, line, byte_len(line)) == offered(
                known_commands(),
                line,
                ""@,
                0,
                byte_len(line),
            )
        }),
{
    reveal_strlit("/");
    reveal_strlit("@");
    let none = Seq::<char>::empty();
    assert(byte_len(none) == 0);
    let at = "@"@ + prefix;
    assert(at =~= none + at);
    assert forall|i: int| 0 <= i < at.len() implies !white(#[trigger] at[i]) by {
        if i > 0 {
            assert(at[i] == prefix[i - 1]);
        }
    }
    lemma_at_the_end(at, none, at);
    assert(without_leading(at) == at);
    assert(at.take(1) =~= "@"@);
    assert(at.skip(1) =~= prefix);
    let slash = "/"@ + prefix;
    assert(slash =~= none + slash);
    assert forall|i: int| 0 <= i < slash.len() implies !white(#[trigger] slash[i]) by {
        if i > 0 {
            assert(slash[i] == prefix[i - 1]);
        }
    }
    lemma_at_the_end(slash, none, slash);
    assert(without_leading(slash) == slash);
    assert(slash.take(1) =~= "/"@);
    assert(slash.take(1)[0] == '/');
    assert("@"@[0] == '@');
    assert(slash.take(slash.len() as int) =~= slash);
    law_a_word_is_itself(slash);
}

/// Behind the agent that is to join a topic the topics are offered, and behind a command that
/// takes neither an agent nor a topic nothing is.
pub proof fn law_topics_are_offered_for_joining(
    names: KnownNames,
    agent: Seq<char>,
    prefix: Seq<char>,
)
    requires
        agent.len() > 0,
        forall|i: int| 0 <= i < agent.len() ==> !white(#[trigger] agent[i]),
        prefix.len() > 0,
        forall|i: int| 0 <= i < prefix.len() ==> !white(#[trigger] prefix[i]),
    ensures
        ({
            let front = "/join"@ + seq![' '] + agent + seq![' '];
            let line = front + prefix;
            completions(names, line, byte_len(line)) == offered(
                described(names.offered_topics(), "topic"@),
                prefix,
                ""@,
                byte_len(front),
                byte_len(line),
            )
        }),
        ({
            let line = "/spawn"@ + seq![' '] + prefix;
            completions(names, line, byte_len(line)).len() == 0
        }),
{
    reveal_strlit("/join");
    reveal_strlit("/spawn");
    reveal_strlit("/kill");
    reveal_strlit("/sleep");
    reveal_strlit("/wake");
    reveal_strlit("/purge");
    reveal_strlit("/dm");
    reveal_strlit("/topic");
    reveal_strlit("/");
    reveal_strlit("@");
    let command = "/join"@;
    let front = command + seq![' '] + agent + seq![' '];
    let line = front + prefix;
    assert forall|i: int| 0 <= i < command.len() implies !white(#[trigger] command[i]) by {
        assert(command[i] == '/' || 'a' <= command[i] <= 'z');
    }
    assert(front.last() == ' ');
    lemma_at_the_end(line, front, prefix);
    assert(line[0] == '/');
    assert(without_leading(line) == line);
    assert(line.take(1) =~= "/"@);
    assert(line.take(1)[0] == '/');
    assert("@"@[0] == '@');
    assert(line.take(line.len() as int) =~= line);
    let two = command + seq![' '] + agent;
    assert(line =~= two + seq![' '] + prefix);
    law_white_space_parts_words(two, ' ', prefix);
    law_white_space_parts_words(command, ' ', agent);
    law_a_word_is_itself(command);
    law_a_word_is_itself(agent);
    law_a_word_is_itself(prefix);
    assert(words(line) =~= seq![command, agent, prefix]);
    let spawn = "/spawn"@;
    let other = spawn + seq![' '] + prefix;
    assert forall|i: int| 0 <= i < spawn.len() implies !white(#[trigger] spawn[i]) by {
        assert(spawn[i] == '/' || 'a' <= spawn[i] <= 'z');
    }
    let head = spawn + seq![' '];
    assert(other =~= head + prefix);
    assert(head.last() == ' ');
    lemma_at_the_end(other, head, prefix);
    assert(other[0] == '/');
    assert(without_leading(other) == other);
    assert(other.take(1) =~= "/"@);
    assert(other.take(1)[0] == '/');
    assert(other.take(other.len() as int) =~= other);
    law_white_space_parts_words(spawn, ' ', prefix);
    law_a_word_is_itself(spawn);
    assert(words(other) =~= seq![spawn, prefix]);
    assert(spawn[2] == 'p');
    assert("/sleep"@[2] == 'l' && spawn.len() == 6 && "/kill"@.len() == 5 && "/wake"@.len() == 5
        && "/purge"@[1] == 'p' && spawn[1] == 's' && "/dm"@.len() == 3 && "/join"@.len() == 5
        && "/topic"@[1] == 't');
}

/// Each name is described by itself, at its place.
pub proof fn law_every_name_is_described(
    names: Seq<Seq<char>>,
    description: Seq<char>,
    i: int,
)
    requires
        0 <= i < names.len(),
    ensures
        described(names, description).len() == names.len(),
        described(names, description)[i].0 == names[i],
        described(names, description)[i].1 == description,
{
}

/// The word at the cursor is the whole stretch without white space around it: what was typed of
/// it holds none and reaches from its start to the cursor, white space or an end of the line
/// stands before it and behind it, and none between the cursor and its end.
pub proof fn law_the_word_at_the_cursor_is_whole(line: Seq<char>, pos: nat, a: int, k: int, e: int)
    requires
        0 <= a <= k <= e <= line.len(),
        pos == byte_len(line.take(k)),
        pos <= byte_len(line),
        forall|i: int| a <= i < e ==> !white(#[trigger] line[i]),
        a > 0 ==> white(line[a - 1]),
        e < line.len() ==> white(line[e]),
    ensures
        typed(line, pos) == line.subrange(a, k),
        span_start(line, pos) == byte_len(line.take(a)),
        span_end(line, pos) == byte_len(line.take(e)),
{
    lemma_chars_before(line, k);
    let front = line.take(k);
    let word = line.subrange(a, k);
    assert(front =~= line.take(a) + word);
    assert forall|i: int| 0 <= i < word.len() implies !white(#[trigger] word[i]) by {
        assert(word[i] == line[a + i]);
    }
    if a > 0 {
        assert(line.take(a).last() == line[a - 1]);
    }
    lemma_tail(front, line.take(a), word);
    let rest = line.skip(k);
    assert forall|i: int| 0 <= i < e - k implies !white(#[trigger] rest[i]) by {
        assert(rest[i] == line[k + i]);
    }
    if e < line.len() {
        assert(rest[e - k] == line[e]);
    }
    lemma_word_len_is(rest, e - k);
}

/// Commands, calls, names and topics look different, and only commands are bold.
pub proof fn law_marks_can_be_told_apart(a: Mark, b: Mark, x: Look, y: Look)
    requires
        call_ensures(look, (a,), x),
        call_ensures(look, (b,), y),
    ensures
        x.colour == y.colour <==> a == b,
        x.bold <==> a == Mark::Command,
        a == Mark::Command ==> x.colour == Colour::Cyan,
        a == Mark::Bang ==> x.colour == Colour::Yellow,
        a == Mark::Dm ==> x.colour == Colour::Purple,
        a == Mark::Topic ==> x.colour == Colour::LightBlue,
{
}

/// Every command that the client understands is offered.
pub proof fn law_every_command_is_offered(command: Seq<char>)
    requires
        command == "/ping"@ || command == "/agents"@ || command == "/topic"@ || command == "/dm"@
            || command == "/spawn"@ || command == "/kill"@ || command == "/purge"@ || command
            == "/join"@ || command == "/sleep"@ || command == "/wake"@ || command == "/quit"@
            || command == "/exit"@,
    ensures
        exists|i: int|
            0 <= i < known_commands().len() && (#[trigger] known_commands()[i]).0 == command,
{
    let all = known_commands();
    assert(all[0].0 == "/ping"@ && all[1].0 == "/agents"@ && all[2].0 == "/topic"@ && all[3].0
        == "/dm"@ && all[4].0 == "/spawn"@ && all[5].0 == "/kill"@ && all[6].0 == "/purge"@
        && all[7].0 == "/join"@ && all[8].0 == "/sleep"@ && all[9].0 == "/wake"@ && all[10].0
        == "/quit"@ && all[11].0 == "/exit"@);
}

/// Every agent that runs or is known is offered, and no other; every topic that is known is
/// offered, and the usual ones always.
pub proof fn law_every_name_is_offered(names: KnownNames, name: Seq<char>)
    requires
        names.active.finite(),
        names.known.finite(),
        names.topics.finite(),
    ensures
        names.agents().contains(name) <==> names.active.contains(name) || names.known.contains(
            name,
        ),
        names.offered_topics().contains(name) <==> names.topics.contains(name) || name
            == "#general"@ || name == "#system"@ || name == "#project_x"@,
        names.offered_topics().len() >= 3,
        names.offered_topics()[0] == "#general"@,
        names.offered_topics()[1] == "#system"@,
        names.offered_topics()[2] == "#project_x"@,
{
    law_agents_are_listed(names);
    law_topics_are_listed(names);
    let agents = names.agents();
    let topics = names.offered_topics();
    assert(agents.contains(name) == agents.to_set().contains(name));
    assert(topics.contains(name) == topics.to_set().contains(name));
    let usual = usual_topics();
    assert(usual[0] == "#general"@ && usual[1] == "#system"@ && usual[2] == "#project_x"@);
    assert(usual.contains(name) <==> name == "#general"@ || name == "#system"@ || name
        == "#project_x"@);
    assert(usual.to_set().contains(name) == usual.contains(name));
}

/// The agents that run are offered before all others.
pub proof fn law_agents_that_run_come_first(names: KnownNames, i: int, j: int)
    requires
        names.active.finite(),
        names.known.finite(),
        0 <= i < j < names.agents().len(),
    ensures
        names.active.contains(names.agents()[j]) ==> names.active.contains(names.agents()[i]),
        names.active.contains(names.agents()[i]) == names.active.contains(names.agents()[j])
            ==> less(names.agents()[i], names.agents()[j]),
        names.agents()[i] != names.agents()[j],
{
    law_agents_are_listed(names);
}

/// What is offered where an agent is wanted are the agents that are known, as they are offered
/// everywhere, and only where the line asks for one.
#[verifier::spinoff_prover]
pub proof fn law_the_completer_offers_agents(
    completer: UnicosCompleter,
    state: CompletionState,
    line: &str,
    pos: usize,
    prefix: Seq<char>,
    given: Vec<Suggestion>,
    i: int,
)
    requires
        call_ensures(UnicosCompleter::complete, (&completer, &state, line, pos), given),
        line@ == "@"@ + prefix,
        pos == byte_len(line@),
        forall|j: int| 0 <= j < prefix.len() ==> !white(#[trigger] prefix[j]),
        0 <= i < state@.agents().len(),
    ensures
        begins(state@.agents()[i], prefix) ==> exists|j: int|
            0 <= j < given@.len() && (#[trigger] given@[j]).value@ == "@"@ + state@.agents()[i]
                && given@[j].start == 0 && given@[j].end == pos,
{
    law_names_and_commands_are_offered(state@, prefix);
    let all = described(state@.agents(), "dm"@);
    let made = offered(all, prefix, "@"@, 0, pos as nat);
    if begins(state@.agents()[i], prefix) {
        let (value, description) = all[i];
        let a = all.take(i);
        let one = seq![all[i]];
        let b = all.skip(i + 1);
        law_all_that_fits_is_offered(a, one, value, description, prefix, "@"@, 0, pos as nat);
        law_all_that_fits_is_offered(a + one, b, value, description, prefix, "@"@, 0, pos as nat);
        assert(a + one + b =~= all);
        assert(all[i] == (state@.agents()[i], "dm"@));
        let before = offered(a, prefix, "@"@, 0, pos as nat);
        let behind = offered(b, prefix, "@"@, 0, pos as nat);
        let this = Offer {
            value: "@"@ + value,
            description,
            start: 0,
            end: pos as nat,
            append_whitespace: true,
        };
        let j = before.len() as int;
        assert(offered(one, prefix, "@"@, 0, pos as nat) == seq![this]);
        assert(made == before + seq![this] + behind);
        assert(made[j] == this);
        assert(offers(given@) == made);
        assert(offers(given@).len() == given@.len());
        assert(offers(given@)[j] == given@[j]@);
        assert(given@[j].value@ == this.value);
    }
}

} // verus!
