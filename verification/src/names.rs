//! Sets of names, kept in alphabetical order.

use vstd::prelude::*;
use crate::text::{chars_of, same, texts};

verus! {

/// The dictionary order of `a` and `b` by the numbers of their characters.
pub open spec fn less(a: Seq<char>, b: Seq<char>) -> bool
    decreases a.len(),
{
    if b.len() == 0 {
        false
    } else if a.len() == 0 {
        true
    } else if a[0] != b[0] {
        a[0] < b[0]
    } else {
        less(a.drop_first(), b.drop_first())
    }
}

/// No name stands before itself.
pub proof fn lemma_less_irreflexive(a: Seq<char>)
    ensures
        !less(a, a),
    decreases a.len(),
{
    if a.len() > 0 {
        lemma_less_irreflexive(a.drop_first());
    }
}

pub proof fn lemma_less_transitive(a: Seq<char>, b: Seq<char>, c: Seq<char>)
    requires
        less(a, b),
        less(b, c),
    ensures
        less(a, c),
    decreases a.len(),
{
    if a.len() > 0 && a[0] == b[0] && b[0] == c[0] {
        lemma_less_transitive(a.drop_first(), b.drop_first(), c.drop_first());
    }
}

/// Of two different names one stands before the other.
pub proof fn lemma_less_total(a: Seq<char>, b: Seq<char>)
    requires
        a != b,
    ensures
        less(a, b) || less(b, a),
    decreases a.len(),
{
    if a.len() == 0 {
        if b.len() == 0 {
            assert(a =~= b);
        }
    } else if b.len() > 0 && a[0] == b[0] {
        if a.drop_first() == b.drop_first() {
            assert(a =~= seq![a[0]] + a.drop_first());
            assert(b =~= seq![b[0]] + b.drop_first());
        }
        lemma_less_total(a.drop_first(), b.drop_first());
    }
}

/// Whether `a` stands before `b`.
pub fn is_less(a: &str, b: &str) -> (r: bool)
    ensures
        r == less(a@, b@),
{
    let x = chars_of(a);
    let y = chars_of(b);
    let mut i: usize = 0;
    assert(a@.skip(0) =~= a@);
    assert(b@.skip(0) =~= b@);
    while i < x.len() && i < y.len() && x[i] == y[i]
        invariant
            x@ == a@,
            y@ == b@,
            i <= x.len(),
            i <= y.len(),
            less(a@.skip(i as int), b@.skip(i as int)) == less(a@, b@),
        decreases x.len() - i,
    {
        assert(a@.skip(i as int).drop_first() =~= a@.skip(i + 1));
        assert(b@.skip(i as int).drop_first() =~= b@.skip(i + 1));
        i += 1;
    }
    if i == y.len() {
        false
    } else if i == x.len() {
        true
    } else {
        x[i] < y[i]
    }
}

/// Whether every name of `s` stands before those that follow it.
pub open spec fn ordered(s: Seq<Seq<char>>) -> bool {
    forall|i: int, j: int| 0 <= i < j < s.len() ==> less(#[trigger] s[i], #[trigger] s[j])
}

/// A set of names, kept in alphabetical order.
pub struct NameSet {
    items: Vec<String>,
}

impl NameSet {
    /// The names, in the order in which they are kept.
    pub closed spec fn list(&self) -> Seq<Seq<char>> {
        texts(self.items@)
    }

    /// The names are in alphabetical order, and none stands twice.
    pub open spec fn wf(&self) -> bool {
        ordered(self.list())
    }
}

impl View for NameSet {
    type V = Set<Seq<char>>;

    open spec fn view(&self) -> Set<Seq<char>> {
        self.list().to_set()
    }
}

/// A list in alphabetical order is determined by the set of its names.
pub proof fn lemma_order_is_unique(a: Seq<Seq<char>>, b: Seq<Seq<char>>)
    requires
        ordered(a),
        ordered(b),
        a.to_set() == b.to_set(),
    ensures
        a == b,
    decreases a.len(),
{
    if a.len() == 0 {
        if b.len() > 0 {
            assert(b.to_set().contains(b[0]));
            assert(a.contains(b[0]));
        }
        assert(a =~= b);
    } else {
        assert(a.to_set().contains(a[0]));
        assert(b.contains(a[0]));
        let k = choose|k: int| 0 <= k < b.len() && b[k] == a[0];
        assert(b.to_set().contains(b[0]));
        assert(a.contains(b[0]));
        let m = choose|m: int| 0 <= m < a.len() && a[m] == b[0];
        if a[0] != b[0] {
            assert(less(b[0], b[k]));
            assert(less(a[0], a[m]));
            lemma_less_transitive(a[0], b[0], a[0]);
            lemma_less_irreflexive(a[0]);
        }
        let x = a.drop_first();
        let y = b.drop_first();
        assert forall|n: Seq<char>| x.to_set().contains(n) <==> y.to_set().contains(n) by {
            if x.contains(n) {
                let i = choose|i: int| 0 <= i < x.len() && x[i] == n;
                assert(a[i + 1] == n);
                assert(less(a[0], a[i + 1]));
                lemma_less_irreflexive(n);
                assert(a.to_set().contains(n));
                assert(b.contains(n));
                let j = choose|j: int| 0 <= j < b.len() && b[j] == n;
                assert(y[j - 1] == n);
            }
            if y.contains(n) {
                let i = choose|i: int| 0 <= i < y.len() && y[i] == n;
                assert(b[i + 1] == n);
                assert(less(b[0], b[i + 1]));
                lemma_less_irreflexive(n);
                assert(b.to_set().contains(n));
                assert(a.contains(n));
                let j = choose|j: int| 0 <= j < a.len() && a[j] == n;
                assert(x[j - 1] == n);
            }
        }
        assert(x.to_set() =~= y.to_set());
        lemma_order_is_unique(x, y);
        assert(a =~= seq![a[0]] + x);
        assert(b =~= seq![b[0]] + y);
    }
}

/// A name that is put behind all smaller and before all greater ones keeps the order.
proof fn lemma_insert(before: Seq<Seq<char>>, k: int, name: Seq<char>)
    requires
        ordered(before),
        0 <= k <= before.len(),
        forall|i: int| 0 <= i < k ==> less(#[trigger] before[i], name),
        forall|i: int| k <= i < before.len() ==> less(name, #[trigger] before[i]),
    ensures
        ordered(before.insert(k, name)),
        before.insert(k, name).to_set() == before.to_set().insert(name),
{
    let after = before.insert(k, name);
    assert forall|i: int, j: int| 0 <= i < j < after.len() implies less(
        #[trigger] after[i],
        #[trigger] after[j],
    ) by {
        if i < k && j == k {
            assert(less(before[i], name));
        } else if i == k {
            assert(less(name, before[j - 1]));
        } else if i < k && j > k {
            assert(less(before[i], before[j - 1]));
        } else if i > k {
            assert(less(before[i - 1], before[j - 1]));
        } else {
            assert(less(before[i], before[j]));
        }
    }
    assert forall|n: Seq<char>| after.contains(n) <==> (before.contains(n) || n == name) by {
        if before.contains(n) {
            let i = choose|i: int| 0 <= i < before.len() && before[i] == n;
            if i < k {
                assert(after[i] == n);
            } else {
                assert(after[i + 1] == n);
            }
        }
        assert(after[k] == name);
    }
    assert(after.to_set() =~= before.to_set().insert(name));
}

/// Where a new name has to be put.
proof fn lemma_place(list: Seq<Seq<char>>, name: Seq<char>) -> (k: int)
    requires
        ordered(list),
        !list.contains(name),
    ensures
        0 <= k <= list.len(),
        forall|i: int| 0 <= i < k ==> less(#[trigger] list[i], name),
        forall|i: int| k <= i < list.len() ==> less(name, #[trigger] list[i]),
    decreases list.len(),
{
    if list.len() == 0 {
        0
    } else if less(list.last(), name) {
        assert forall|i: int| 0 <= i < list.len() implies less(#[trigger] list[i], name) by {
            if i < list.len() - 1 {
                lemma_less_transitive(list[i], list[list.len() - 1], name);
            }
        }
        list.len() as int
    } else {
        let shorter = list.drop_last();
        assert(list.contains(list.last()));
        lemma_less_total(list.last(), name);
        assert forall|i: int| 0 <= i < shorter.len() implies shorter[i] != name by {
            assert(list.contains(list[i]));
        }
        let k = lemma_place(shorter, name);
        assert forall|i: int| 0 <= i < k implies less(#[trigger] list[i], name) by {
            assert(shorter[i] == list[i]);
        }
        assert forall|i: int| k <= i < list.len() implies less(name, #[trigger] list[i]) by {
            if i < shorter.len() {
                assert(shorter[i] == list[i]);
            }
        }
        k
    }
}

/// Every finite set of names can be put in order.
pub proof fn lemma_sorted_holds(names: Set<Seq<char>>)
    requires
        names.finite(),
    ensures
        ordered(sorted(names)),
        sorted(names).to_set() == names,
    decreases names.len(),
{
    if names.is_empty() {
        let none = Seq::<Seq<char>>::empty();
        assert(none.to_set() =~= names);
        lemma_sorted(none);
    } else {
        let name = names.choose();
        let list = sorted(names.remove(name));
        lemma_sorted_holds(names.remove(name));
        if list.contains(name) {
            assert(list.to_set().contains(name));
        }
        let k = lemma_place(list, name);
        lemma_insert(list, k, name);
        assert(list.insert(k, name).to_set() =~= names);
        lemma_sorted(list.insert(k, name));
    }
}

/// The names of a set in alphabetical order.
pub open spec fn sorted(names: Set<Seq<char>>) -> Seq<Seq<char>> {
    choose|l: Seq<Seq<char>>| ordered(l) && #[trigger] l.to_set() == names
}

pub proof fn lemma_sorted(l: Seq<Seq<char>>)
    requires
        ordered(l),
    ensures
        sorted(l.to_set()) == l,
{
    lemma_order_is_unique(sorted(l.to_set()), l);
}

/// In a list in alphabetical order nothing stands twice.
pub proof fn lemma_ordered_once(l: Seq<Seq<char>>)
    requires
        ordered(l),
    ensures
        l.no_duplicates(),
{
    assert forall|i: int, j: int| 0 <= i < l.len() && 0 <= j < l.len() && i != j implies l[i]
        != l[j] by {
        lemma_less_irreflexive(l[i]);
        if i < j {
            assert(less(l[i], l[j]));
        } else {
            assert(less(l[j], l[i]));
        }
    }
}

/// The names of `list` that are not in `out`, in their order.
pub open spec fn kept(list: Seq<Seq<char>>, out: Set<Seq<char>>) -> Seq<Seq<char>>
    decreases list.len(),
{
    if list.len() == 0 {
        list
    } else if out.contains(list.last()) {
        kept(list.drop_last(), out)
    } else {
        kept(list.drop_last(), out).push(list.last())
    }
}

proof fn lemma_kept(list: Seq<Seq<char>>, out: Set<Seq<char>>)
    requires
        ordered(list),
    ensures
        ordered(kept(list, out)),
        forall|n: Seq<char>|
            #[trigger] kept(list, out).contains(n) <==> list.contains(n) && !out.contains(n),
    decreases list.len(),
{
    if list.len() > 0 {
        let shorter = list.drop_last();
        let before = kept(shorter, out);
        let after = kept(list, out);
        lemma_kept(shorter, out);
        assert forall|n: Seq<char>| list.contains(n) <==> shorter.contains(n) || n == list.last() by {
            if shorter.contains(n) {
                let i = choose|i: int| 0 <= i < shorter.len() && shorter[i] == n;
                assert(list[i] == n);
            }
            if list.contains(n) && n != list.last() {
                let i = choose|i: int| 0 <= i < list.len() && list[i] == n;
                assert(shorter[i] == n);
            }
        }
        if !out.contains(list.last()) {
            assert forall|n: Seq<char>| after.contains(n) <==> before.contains(n) || n == list.last() by {
                if before.contains(n) {
                    let i = choose|i: int| 0 <= i < before.len() && before[i] == n;
                    assert(after[i] == n);
                }
                assert(after.last() == list.last());
                if after.contains(n) && n != list.last() {
                    let i = choose|i: int| 0 <= i < after.len() && after[i] == n;
                    assert(before[i] == n);
                }
            }
            assert forall|i: int, j: int| 0 <= i < j < after.len() implies less(
                #[trigger] after[i],
                #[trigger] after[j],
            ) by {
                if j == after.len() - 1 {
                    assert(before[i] == after[i]);
                    assert(before.contains(before[i]));
                    assert(shorter.contains(before[i]));
                    let k = choose|k: int| 0 <= k < shorter.len() && shorter[k] == before[i];
                    assert(less(list[k], list[list.len() - 1]));
                } else {
                    assert(less(before[i], before[j]));
                }
            }
        }
    }
}

impl NameSet {
    /// The names that are not in `out`, in alphabetical order.
    pub fn to_vec_without(&self, out: &NameSet) -> (r: Vec<String>)
        requires
            self.wf(),
            out.wf(),
        ensures
            texts(r@) == sorted(self@.difference(out@)),
    {
        let mut r: Vec<String> = Vec::new();
        let mut i: usize = 0;
        assert(self.list().take(0) =~= Seq::<Seq<char>>::empty());
        assert(texts(r@) =~= Seq::<Seq<char>>::empty());
        while i < self.items.len()
            invariant
                i <= self.items.len(),
                out.wf(),
                texts(r@) == kept(self.list().take(i as int), out@),
            decreases self.items.len() - i,
        {
            let ghost next = self.list().take(i + 1);
            let ghost before = r@;
            assert(next.drop_last() =~= self.list().take(i as int));
            assert(next.last() == self.items@[i as int]@);
            if !out.contains(self.items[i].as_str()) {
                r.push(self.items[i].clone());
                assert(texts(r@) =~= texts(before).push(next.last()));
            }
            i += 1;
        }
        proof {
            assert(self.list().take(i as int) =~= self.list());
            lemma_kept(self.list(), out@);
            assert(texts(r@).to_set() =~= self@.difference(out@));
            lemma_sorted(texts(r@));
        }
        r
    }

    /// The set is finite.
    pub proof fn lemma_finite(&self)
        ensures
            self@.finite(),
    {
        vstd::seq_lib::seq_to_set_is_finite(self.list());
    }

    /// The empty set.
    pub fn new() -> (r: NameSet)
        ensures
            r.wf(),
            r@ == Set::<Seq<char>>::empty(),
    {
        let r = NameSet { items: Vec::new() };
        assert(r.list() =~= Seq::<Seq<char>>::empty());
        assert(r@ =~= Set::<Seq<char>>::empty());
        r
    }

    /// Where `name` stands, or would have to be put.
    fn position(&self, name: &str) -> (k: usize)
        requires
            self.wf(),
        ensures
            k <= self.items.len(),
            forall|i: int| 0 <= i < k ==> less(#[trigger] self.list()[i], name@),
            forall|i: int| k <= i < self.items.len() ==> !less(#[trigger] self.list()[i], name@),
            self@.contains(name@) <==> (k < self.items.len() && self.list()[k as int] == name@),
    {
        let mut k: usize = 0;
        while k < self.items.len() && is_less(self.items[k].as_str(), name)
            invariant
                k <= self.items.len(),
                forall|i: int| 0 <= i < k ==> less(#[trigger] self.list()[i], name@),
            decreases self.items.len() - k,
        {
            assert(self.list()[k as int] == self.items@[k as int]@);
            k += 1;
        }
        proof {
            let l = self.list();
            if k < l.len() {
                assert(l[k as int] == self.items@[k as int]@);
            }
            assert forall|i: int| k <= i < l.len() implies !less(#[trigger] l[i], name@) by {
                if i > k && less(l[i], name@) {
                    lemma_less_transitive(l[k as int], l[i], name@);
                }
            }
            if l.contains(name@) {
                let j = choose|j: int| 0 <= j < l.len() && l[j] == name@;
                lemma_less_irreflexive(name@);
                if k < j {
                    assert(less(l[k as int], l[j]));
                }
            }
        }
        k
    }

    /// Whether `name` is in the set.
    pub fn contains(&self, name: &str) -> (r: bool)
        requires
            self.wf(),
        ensures
            r == self@.contains(name@),
    {
        let k: usize = self.position(name);
        k < self.items.len() && same(self.items[k].as_str(), name)
    }

    /// Puts `name` into the set.
    pub fn insert(&mut self, name: &str)
        requires
            old(self).wf(),
        ensures
            final(self).wf(),
            final(self)@ == old(self)@.insert(name@),
    {
        let k: usize = self.position(name);
        let ghost before = self.list();
        if k < self.items.len() && same(self.items[k].as_str(), name) {
            assert(self@ =~= self@.insert(name@));
            return;
        }
        self.items.insert(k, name.to_owned());
        proof {
            assert(self.list() =~= before.insert(k as int, name@));
            if k < before.len() {
                lemma_less_total(before[k as int], name@);
            }
            assert forall|i: int| k <= i < before.len() implies less(
                name@,
                #[trigger] before[i],
            ) by {
                if i > k {
                    lemma_less_transitive(name@, before[k as int], before[i]);
                }
            }
            lemma_insert(before, k as int, name@);
        }
    }

    /// Takes `name` out of the set.
    pub fn remove(&mut self, name: &str)
        requires
            old(self).wf(),
        ensures
            final(self).wf(),
            final(self)@ == old(self)@.remove(name@),
    {
        let k: usize = self.position(name);
        let ghost before = self.list();
        if !(k < self.items.len() && same(self.items[k].as_str(), name)) {
            assert(self@ =~= self@.remove(name@));
            return;
        }
        let _ = self.items.remove(k);
        proof {
            let after = self.list();
            assert(after =~= before.remove(k as int));
            assert forall|i: int, j: int| 0 <= i < j < after.len() implies less(
                #[trigger] after[i],
                #[trigger] after[j],
            ) by {
                let x = if i < k { i } else { i + 1 };
                let y = if j < k { j } else { j + 1 };
                assert(less(before[x], before[y]));
            }
            lemma_less_irreflexive(name@);
            assert forall|n: Seq<char>| after.contains(n) <==> (before.contains(n) && n != name@) by {
                if before.contains(n) && n != name@ {
                    let i = choose|i: int| 0 <= i < before.len() && before[i] == n;
                    if i < k {
                        assert(after[i] == n);
                    } else {
                        assert(after[i - 1] == n);
                    }
                }
                if after.contains(n) {
                    let i = choose|i: int| 0 <= i < after.len() && after[i] == n;
                    if i < k {
                        assert(before[i] == n);
                        assert(less(before[i], before[k as int]));
                    } else {
                        assert(before[i + 1] == n);
                        assert(less(before[k as int], before[i + 1]));
                    }
                }
            }
            assert(self@ =~= before.to_set().remove(name@));
        }
    }

    /// The names in alphabetical order.
    pub fn to_vec(&self) -> (r: Vec<String>)
        requires
            self.wf(),
        ensures
            texts(r@) == sorted(self@),
    {
        let mut out: Vec<String> = Vec::new();
        let mut i: usize = 0;
        while i < self.items.len()
            invariant
                i <= self.items.len(),
                out.len() == i,
                forall|j: int| 0 <= j < i ==> #[trigger] out@[j]@ == self.items@[j]@,
            decreases self.items.len() - i,
        {
            out.push(self.items[i].clone());
            i += 1;
        }
        assert(texts(out@) =~= self.list());
        proof {
            lemma_sorted(self.list());
        }
        out
    }
}

/// Names are in the order of the first character in which they differ, and a name stands before
/// every longer one that begins with it.
pub proof fn law_names_are_in_the_order_of_the_dictionary(
    front: Seq<char>,
    x: char,
    y: char,
    a: Seq<char>,
    b: Seq<char>,
)
    ensures
        x < y ==> less(front + seq![x] + a, front + seq![y] + b),
        less(front, front + seq![x] + a),
    decreases front.len(),
{
    let s = front + seq![x] + a;
    let t = front + seq![y] + b;
    if front.len() > 0 {
        let rest = front.drop_first();
        assert(s.drop_first() =~= rest + seq![x] + a);
        assert(t.drop_first() =~= rest + seq![y] + b);
        law_names_are_in_the_order_of_the_dictionary(rest, x, y, a, b);
    }
}

} // verus!
