//! The label table: label names and the instruction addresses they stand for.

use vstd::prelude::*;

verus! {

/// A map from label names to instruction addresses. Each name has one
/// address; setting it again replaces the earlier one.
pub struct LabelTable {
    names: Vec<String>,
    addrs: Vec<usize>,
    model: Ghost<Map<Seq<char>, nat>>,
}

impl View for LabelTable {
    type V = Map<Seq<char>, nat>;

    closed spec fn view(&self) -> Map<Seq<char>, nat> {
        self.model@
    }
}

impl LabelTable {
    /// The table is well formed: each name is held once, with its address.
    pub closed spec fn wf(&self) -> bool {
        &&& self.names@.len() == self.addrs@.len()
        &&& forall|i: int, j: int|
            0 <= i < j < self.names@.len() ==> self.names@[i]@ != self.names@[j]@
        &&& forall|i: int|
            0 <= i < self.names@.len() ==> #[trigger] self.model@.contains_key(self.names@[i]@)
                && self.model@[self.names@[i]@] == self.addrs@[i] as nat
        &&& forall|k: Seq<char>|
            #[trigger] self.model@.contains_key(k) ==> exists|i: int|
                0 <= i < self.names@.len() && #[trigger] self.names@[i]@ == k
    }

    /// An empty table.
    pub fn new() -> (r: LabelTable)
        ensures
            r.wf(),
            r@ == Map::<Seq<char>, nat>::empty(),
    {
        LabelTable { names: Vec::new(), addrs: Vec::new(), model: Ghost(Map::empty()) }
    }

    /// The number of labels.
    pub fn len(&self) -> (r: usize)
        requires
            self.wf(),
        ensures
            r == self@.len(),
    {
        proof {
            self.lemma_len();
        }
        self.names.len()
    }

    proof fn lemma_len(&self)
        requires
            self.wf(),
        ensures
            self.model@.len() == self.names@.len(),
            self.model@.dom().finite(),
    {
        let names = self.names@.map_values(|s: String| s@);
        assert(names.no_duplicates()) by {
            assert forall|i: int, j: int| 0 <= i < names.len() && 0 <= j < names.len() && i != j
                implies names[i] != names[j] by {
                if i < j {
                    assert(self.names@[i]@ != self.names@[j]@);
                } else {
                    assert(self.names@[j]@ != self.names@[i]@);
                }
            }
        }
        assert(self.model@.dom() =~= names.to_set()) by {
            assert forall|k: Seq<char>| self.model@.dom().contains(k) implies names.to_set().contains(k) by {
                let i = choose|i: int| 0 <= i < self.names@.len() && #[trigger] self.names@[i]@ == k;
                assert(names[i] == k);
            }
            assert forall|k: Seq<char>| names.to_set().contains(k) implies self.model@.dom().contains(k) by {
                let i = choose|i: int| 0 <= i < names.len() && names[i] == k;
                assert(self.model@.contains_key(self.names@[i]@));
            }
        }
        names.unique_seq_to_set();
    }

    fn find(&self, name: &String) -> (r: Option<usize>)
        requires
            self.wf(),
        ensures
            match r {
                Some(i) => i < self.names@.len() && self.names@[i as int]@ == name@,
                None => !self@.contains_key(name@),
            },
    {
        let mut i: usize = 0;
        while i < self.names.len()
            invariant
                self.wf(),
                i <= self.names@.len(),
                forall|j: int| 0 <= j < i ==> self.names@[j]@ != name@,
            decreases self.names@.len() - i,
        {
            if self.names[i].eq(name) {
                return Some(i);
            }
            i = i + 1;
        }
        None
    }

    /// The address of label `name`, if the table holds it.
    pub fn lookup(&self, name: &String) -> (r: Option<usize>)
        requires
            self.wf(),
        ensures
            match r {
                Some(a) => self@.contains_key(name@) && self@[name@] == a as nat,
                None => !self@.contains_key(name@),
            },
    {
        match self.find(name) {
            Some(i) => {
                assert(self.model@.contains_key(self.names@[i as int]@));
                Some(self.addrs[i])
            },
            None => None,
        }
    }

    /// The address of label `name`, if the table holds it.
    pub fn get(&self, name: &str) -> (r: Option<usize>)
        requires
            self.wf(),
        ensures
            match r {
                Some(a) => self@.contains_key(name@) && self@[name@] == a as nat,
                None => !self@.contains_key(name@),
            },
    {
        self.lookup(&String::from_str(name))
    }

    /// Sets label `name` to `addr`.
    pub fn insert(&mut self, name: String, addr: usize)
        requires
            old(self).wf(),
        ensures
            final(self).wf(),
            final(self)@ == old(self)@.insert(name@, addr as nat),
    {
        let ghost key = name@;
        let ghost model = self.model@.insert(key, addr as nat);
        match self.find(&name) {
            Some(i) => {
                let ghost old_names = self.names@;
                self.addrs.set(i, addr);
                self.model = Ghost(model);
                assert forall|j: int| 0 <= j < self.names@.len() implies #[trigger] self.model@.contains_key(self.names@[j]@)
                    && self.model@[self.names@[j]@] == self.addrs@[j] as nat by {
                    if j != i {
                        if j < i {
                            assert(old_names[j]@ != old_names[i as int]@);
                        } else {
                            assert(old_names[i as int]@ != old_names[j]@);
                        }
                        assert(old(self).model@.contains_key(old_names[j]@));
                    }
                }
                assert forall|k: Seq<char>| #[trigger] model.contains_key(k) implies exists|j: int|
                    0 <= j < self.names@.len() && #[trigger] self.names@[j]@ == k by {
                    if k != key {
                        assert(old(self).model@.contains_key(k));
                    } else {
                        assert(self.names@[i as int]@ == k);
                    }
                }
            },
            None => {
                let ghost n = self.names@.len();
                self.names.push(name);
                self.addrs.push(addr);
                self.model = Ghost(model);
                assert(self.names@[n as int]@ == key);
                assert forall|j: int| 0 <= j < self.names@.len() implies #[trigger] self.model@.contains_key(self.names@[j]@)
                    && self.model@[self.names@[j]@] == self.addrs@[j] as nat by {
                    if j < n {
                        assert(self.names@[j] == old(self).names@[j]);
                        assert(old(self).model@.contains_key(old(self).names@[j]@));
                    }
                }
                assert forall|a: int, b: int| 0 <= a < b < self.names@.len() implies self.names@[a]@ != self.names@[b]@ by {
                    if b == n {
                        assert(self.names@[a] == old(self).names@[a]);
                        assert(old(self).model@.contains_key(old(self).names@[a]@));
                    } else {
                        assert(self.names@[a] == old(self).names@[a]);
                        assert(self.names@[b] == old(self).names@[b]);
                    }
                }
                assert forall|k: Seq<char>| #[trigger] model.contains_key(k) implies exists|j: int|
                    0 <= j < self.names@.len() && #[trigger] self.names@[j]@ == k by {
                    if k != key {
                        assert(old(self).model@.contains_key(k));
                        let j = choose|j: int| 0 <= j < old(self).names@.len() && #[trigger] old(self).names@[j]@ == k;
                        assert(self.names@[j] == old(self).names@[j]);
                    }
                }
            },
        }
    }

    /// Removes every label.
    pub fn clear(&mut self)
        ensures
            final(self).wf(),
            final(self)@ == Map::<Seq<char>, nat>::empty(),
    {
        self.names = Vec::new();
        self.addrs = Vec::new();
        self.model = Ghost(Map::empty());
    }

    /// Every label with its address, each once, in the order they were first set.
    pub fn entries(&self) -> (r: Vec<(String, usize)>)
        requires
            self.wf(),
        ensures
            r@.len() == self@.len(),
            forall|i: int| 0 <= i < r@.len() ==> #[trigger] self@.contains_key(r@[i].0@)
                && self@[r@[i].0@] == r@[i].1 as nat,
            forall|i: int, j: int| 0 <= i < j < r@.len() ==> r@[i].0@ != r@[j].0@,
    {
        proof {
            self.lemma_len();
        }
        let mut r: Vec<(String, usize)> = Vec::new();
        let mut i: usize = 0;
        while i < self.names.len()
            invariant
                self.wf(),
                i <= self.names@.len(),
                r@.len() == i,
                forall|j: int| 0 <= j < i ==> #[trigger] r@[j].0@ == self.names@[j]@ && r@[j].1
                    == self.addrs@[j],
            decreases self.names@.len() - i,
        {
            r.push((self.names[i].clone(), self.addrs[i]));
            i = i + 1;
        }
        r
    }
}

} // verus!
