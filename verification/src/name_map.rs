//! Things kept under names.

use vstd::prelude::*;
use crate::text::same;

verus! {

/// Where `name` stands in `names`, or their number where it does not.
pub open spec fn place(names: Seq<Seq<char>>, name: Seq<char>) -> nat
    decreases names.len(),
{
    if names.len() == 0 || names[0] == name {
        0
    } else {
        1 + place(names.drop_first(), name)
    }
}

proof fn lemma_place(names: Seq<Seq<char>>, name: Seq<char>)
    ensures
        place(names, name) <= names.len(),
        place(names, name) < names.len() ==> names[place(names, name) as int] == name,
        names.contains(name) ==> place(names, name) < names.len(),
    decreases names.len(),
{
    if names.len() > 0 && names[0] != name {
        let rest = names.drop_first();
        lemma_place(rest, name);
        if names.contains(name) {
            let i = choose|i: int| 0 <= i < names.len() && names[i] == name;
            assert(rest[i - 1] == name);
        }
    }
}

proof fn lemma_place_is(names: Seq<Seq<char>>, name: Seq<char>, k: int)
    requires
        names.no_duplicates(),
        0 <= k < names.len(),
        names[k] == name,
    ensures
        place(names, name) == k,
{
    lemma_place(names, name);
    assert(names.contains(name));
}

/// Things kept under names, at most one under each.
pub struct NameMap<T> {
    entries: Vec<(String, T)>,
}

impl<T> NameMap<T> {
    spec fn keys(&self) -> Seq<Seq<char>> {
        self.entries@.map_values(|e: (String, T)| e.0@)
    }

    /// No name stands twice.
    pub closed spec fn wf(&self) -> bool {
        self.keys().no_duplicates()
    }
}

impl<T> View for NameMap<T> {
    type V = Map<Seq<char>, T>;

    closed spec fn view(&self) -> Map<Seq<char>, T> {
        Map::new(
            |n: Seq<char>| self.keys().contains(n),
            |n: Seq<char>| self.entries@[place(self.keys(), n) as int].1,
        )
    }
}

impl<T> NameMap<T> {
    /// Nothing under any name.
    pub fn new() -> (r: NameMap<T>)
        ensures
            r.wf(),
            r@ == Map::<Seq<char>, T>::empty(),
    {
        let r = NameMap { entries: Vec::new() };
        assert(r@ =~= Map::<Seq<char>, T>::empty());
        r
    }

    fn position(&self, name: &str) -> (r: Option<usize>)
        requires
            self.wf(),
        ensures
            match r {
                Some(k) => k < self.entries.len() && self.keys()[k as int] == name@ && place(
                    self.keys(),
                    name@,
                ) == k && self@.contains_key(name@),
                None => !self.keys().contains(name@) && !self@.contains_key(name@),
            },
    {
        let mut k: usize = 0;
        while k < self.entries.len()
            invariant
                k <= self.entries.len(),
                self.wf(),
                forall|i: int| 0 <= i < k ==> #[trigger] self.keys()[i] != name@,
            decreases self.entries.len() - k,
        {
            assert(self.keys()[k as int] == self.entries@[k as int].0@);
            if same(self.entries[k].0.as_str(), name) {
                proof {
                    lemma_place_is(self.keys(), name@, k as int);
                }
                return Some(k);
            }
            k += 1;
        }
        None
    }

    /// Whether something is kept under `name`.
    pub fn contains(&self, name: &str) -> (r: bool)
        requires
            self.wf(),
        ensures
            r == self@.contains_key(name@),
    {
        self.position(name).is_some()
    }

    /// What is kept under `name`.
    pub fn get(&self, name: &str) -> (r: Option<&T>)
        requires
            self.wf(),
        ensures
            match r {
                Some(v) => self@.contains_key(name@) && self@[name@] == *v,
                None => !self@.contains_key(name@),
            },
    {
        match self.position(name) {
            Some(k) => Some(&self.entries[k].1),
            None => None,
        }
    }

    /// Takes away what is kept under `name`.
    pub fn remove(&mut self, name: &str) -> (r: Option<T>)
        requires
            old(self).wf(),
        ensures
            final(self).wf(),
            final(self)@ == old(self)@.remove(name@),
            match r {
                Some(v) => old(self)@.contains_key(name@) && old(self)@[name@] == v,
                None => !old(self)@.contains_key(name@),
            },
    {
        match self.position(name) {
            Some(k) => {
                let ghost before = *self;
                let (_, v) = self.entries.remove(k);
                proof {
                    let a = before.keys();
                    let b = self.keys();
                    assert(b =~= a.remove(k as int));
                    assert forall|i: int, j: int|
                        0 <= i < b.len() && 0 <= j < b.len() && i != j implies b[i] != b[j] by {
                        let x = if i < k { i } else { i + 1 };
                        let y = if j < k { j } else { j + 1 };
                        assert(a[x] != a[y]);
                    }
                    assert forall|n: Seq<char>| b.contains(n) <==> a.contains(n) && n != name@ by {
                        if a.contains(n) && n != name@ {
                            let i = choose|i: int| 0 <= i < a.len() && a[i] == n;
                            assert(b[if i < k { i } else { i - 1 }] == n);
                        }
                        if b.contains(n) {
                            let i = choose|i: int| 0 <= i < b.len() && b[i] == n;
                            assert(a[if i < k { i } else { i + 1 }] == n);
                        }
                    }
                    assert forall|n: Seq<char>| b.contains(n) implies #[trigger] self@[n]
                        == before@[n] by {
                        let i = choose|i: int| 0 <= i < b.len() && b[i] == n;
                        lemma_place_is(b, n, i);
                        lemma_place_is(a, n, if i < k { i } else { i + 1 });
                    }
                    assert(self@ =~= before@.remove(name@));
                }
                Some(v)
            },
            None => {
                assert(self@ =~= self@.remove(name@));
                None
            },
        }
    }

    /// Keeps `value` under `name`, in place of what was kept there.
    pub fn insert(&mut self, name: &str, value: T)
        requires
            old(self).wf(),
        ensures
            final(self).wf(),
            final(self)@ == old(self)@.insert(name@, value),
    {
        let _ = self.remove(name);
        let ghost before = *self;
        self.entries.push((name.to_owned(), value));
        proof {
            let a = before.keys();
            let b = self.keys();
            assert(b =~= a.push(name@));
            assert(!before@.contains_key(name@));
            assert(!a.contains(name@));
            assert forall|i: int, j: int|
                0 <= i < b.len() && 0 <= j < b.len() && i != j implies b[i] != b[j] by {
                if i < a.len() {
                    assert(a.contains(a[i]));
                }
                if j < a.len() {
                    assert(a.contains(a[j]));
                }
            }
            assert forall|n: Seq<char>| b.contains(n) <==> a.contains(n) || n == name@ by {
                assert(b[a.len() as int] == name@);
                if a.contains(n) {
                    let i = choose|i: int| 0 <= i < a.len() && a[i] == n;
                    assert(b[i] == n);
                }
            }
            lemma_place_is(b, name@, a.len() as int);
            assert forall|n: Seq<char>| a.contains(n) implies #[trigger] self@[n] == before@[n] by {
                let i = choose|i: int| 0 <= i < a.len() && a[i] == n;
                assert(b[i] == n);
                lemma_place_is(b, n, i);
                lemma_place_is(a, n, i);
            }
            assert(self@[name@] == value);
            assert(self@ =~= before@.insert(name@, value));
            assert(old(self)@.remove(name@).insert(name@, value) =~= old(self)@.insert(
                name@,
                value,
            ));
        }
    }

    /// The names under which something is kept.
    pub fn names(&self) -> (r: Vec<String>)
        requires
            self.wf(),
        ensures
            crate::text::texts(r@).no_duplicates(),
            crate::text::texts(r@).to_set() == self@.dom(),
    {
        let mut out: Vec<String> = Vec::new();
        let mut i: usize = 0;
        while i < self.entries.len()
            invariant
                i <= self.entries.len(),
                out.len() == i,
                forall|j: int| 0 <= j < i ==> #[trigger] out@[j]@ == self.entries@[j].0@,
            decreases self.entries.len() - i,
        {
            out.push(self.entries[i].0.clone());
            i += 1;
        }
        assert(crate::text::texts(out@) =~= self.keys());
        assert(crate::text::texts(out@).to_set() =~= self@.dom());
        out
    }
}

} // verus!
