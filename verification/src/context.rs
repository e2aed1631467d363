//! What an agent remembers of what was said.

use std::collections::VecDeque;
use vstd::prelude::*;
use crate::common::{Envelope, Message};

verus! {

/// The last `n` items of `s`.
pub open spec fn latest<T>(s: Seq<T>, n: nat) -> Seq<T> {
    if s.len() <= n {
        s
    } else {
        s.skip(s.len() - n)
    }
}

/// The latest messages, as many as the window holds.
#[derive(Debug)]
pub struct ContextManager {
    window: usize,
    recent: VecDeque<Envelope<Message>>,
}

impl ContextManager {
    #[verifier::type_invariant]
    spec fn inv(self) -> bool {
        1 <= self.window && self.recent@.len() <= self.window
    }

    /// How many messages the window holds.
    pub closed spec fn size(&self) -> nat {
        self.window as nat
    }
}

impl View for ContextManager {
    type V = Seq<Envelope<Message>>;

    closed spec fn view(&self) -> Seq<Envelope<Message>> {
        self.recent@
    }
}

impl ContextManager {
    /// An empty memory for `window` messages, and for one at least.
    pub fn new(window: usize) -> (r: ContextManager)
        ensures
            r.size() == if window == 0 { 1 } else { window as nat },
            r@ == Seq::<Envelope<Message>>::empty(),
    {
        let window: usize = if window == 0 { 1 } else { window };
        ContextManager { window, recent: VecDeque::new() }
    }

    /// Remembers `msg`; what no longer fits into the window is forgotten, the oldest first.
    pub fn push_message(&mut self, msg: Envelope<Message>)
        ensures
            final(self).size() == old(self).size(),
            final(self)@ == latest(old(self)@.push(msg), old(self).size()),
            final(self)@.len() <= final(self).size(),
            final(self)@.len() > 0,
            final(self)@.last() == msg,
    {
        proof {
            use_type_invariant(&*self);
        }
        let mut recent: VecDeque<Envelope<Message>> = VecDeque::new();
        std::mem::swap(&mut recent, &mut self.recent);
        let ghost before = recent@;
        recent.push_back(msg);
        let ghost all = recent@;
        assert(all.skip(0) =~= all);
        while recent.len() > self.window
            invariant
                recent@.len() <= all.len(),
                recent@ == all.skip(all.len() - recent@.len()),
                self.window >= 1,
                recent@.len() >= self.window || recent@.len() == all.len(),
            decreases recent.len(),
        {
            let ghost n = recent@.len();
            let _ = recent.pop_front();
            assert(recent@ =~= all.skip(all.len() - n + 1));
        }
        self.recent = recent;
    }

    /// The messages that are remembered, the oldest first.
    pub fn snapshot(&self) -> (r: Vec<Envelope<Message>>)
        ensures
            r@ == self@,
            r@.len() <= self.size(),
    {
        proof {
            use_type_invariant(self);
        }
        let mut out: Vec<Envelope<Message>> = Vec::new();
        let mut i: usize = 0;
        while i < self.recent.len()
            invariant
                i <= self.recent@.len(),
                out@ == self.recent@.take(i as int),
            decreases self.recent@.len() - i,
        {
            let m = self.recent[i].clone();
            assert(m == self.recent@[i as int]);
            out.push(m);
            assert(out@ =~= self.recent@.take(i + 1));
            i += 1;
        }
        assert(self.recent@.take(i as int) =~= self.recent@);
        out
    }
}

/// What is remembered after every message of `said`, from `start` on.
pub open spec fn remembered(
    start: Seq<Envelope<Message>>,
    said: Seq<Envelope<Message>>,
    size: nat,
) -> Seq<Envelope<Message>>
    decreases said.len(),
{
    if said.len() == 0 {
        start
    } else {
        latest(remembered(start, said.drop_last(), size).push(said.last()), size)
    }
}

/// However many messages come, the latest of them all are remembered, in their order.
pub proof fn law_the_latest_are_remembered(said: Seq<Envelope<Message>>, size: nat)
    requires
        size >= 1,
    ensures
        remembered(Seq::empty(), said, size) == latest(said, size),
    decreases said.len(),
{
    if said.len() > 0 {
        let before = said.drop_last();
        law_the_latest_are_remembered(before, size);
        assert(latest(latest(before, size).push(said.last()), size) =~= latest(said, size));
    } else {
        assert(remembered(Seq::empty(), said, size) =~= latest(said, size));
    }
}

/// What is kept of a list are its last items: as many as may be kept or as there are, and none
/// of them changed or moved.
pub proof fn law_the_latest_are_the_end_of_the_list<T>(s: Seq<T>, n: nat)
    ensures
        latest(s, n).len() == if s.len() <= n { s.len() } else { n },
        forall|i: int|
            0 <= i < latest(s, n).len() ==> #[trigger] latest(s, n)[i] == s[s.len() - latest(
                s,
                n,
            ).len() + i],
{
}

/// A new memory holds as many messages as it is made for, and one at least; nothing is in it.
pub proof fn law_a_memory_is_as_wide_as_it_is_made(window: usize, r: ContextManager)
    requires
        call_ensures(ContextManager::new, (window,), r),
    ensures
        r.size() >= 1,
        window > 0 ==> r.size() == window,
        r@.len() == 0,
{
}

} // verus!
