//! A small dictionary keyed by name: the bindings of one scope layer.

use vstd::prelude::*;

verus! {

/// One binding: a name and what it is bound to.
pub struct Entry<T> {
    pub name: String,
    pub item: T,
}

/// Bindings in the order in which their names were first bound. No name
/// occurs twice.
pub struct Table<T> {
    pub entries: Vec<Entry<T>>,
}

impl<T: View> Table<T> {
    /// No name occurs twice.
    pub open spec fn wf(&self) -> bool {
        forall|i: int, j: int|
            0 <= i < j < self.entries@.len() ==> self.entries@[i].name@ != self.entries@[j].name@
    }

    /// Whether the binding at `i` is the one of `name`.
    pub open spec fn binds_at(&self, name: Seq<char>, i: int) -> bool {
        0 <= i < self.entries@.len() && self.entries@[i].name@ == name
    }

    /// Where `name` is bound, if it is.
    pub open spec fn position(&self, name: Seq<char>) -> int {
        choose|i: int| self.binds_at(name, i)
    }

    /// The bindings as a map from names to the models of the items.
    pub open spec fn dict(&self) -> Map<Seq<char>, T::V> {
        Map::new(
            |k: Seq<char>| exists|i: int| self.binds_at(k, i),
            |k: Seq<char>| self.entries@[self.position(k)].item@,
        )
    }

    /// In a well-formed table a name is bound at one position only, and the
    /// map holds the item that stands there.
    pub proof fn lemma_bound(&self, name: Seq<char>, i: int)
        requires
            self.wf(),
            self.binds_at(name, i),
        ensures
            self.position(name) == i,
            self.dict().contains_key(name),
            self.dict()[name] == self.entries@[i].item@,
    {
        let p = self.position(name);
        assert(self.binds_at(name, p));
        if p < i {
            assert(self.entries@[p].name@ != self.entries@[i].name@);
        } else if i < p {
            assert(self.entries@[i].name@ != self.entries@[p].name@);
        }
    }

    /// A name that the map holds is bound at its position.
    pub proof fn lemma_held(&self, name: Seq<char>)
        requires
            self.dict().contains_key(name),
        ensures
            self.binds_at(name, self.position(name)),
    {
        let i = choose|i: int| self.binds_at(name, i);
        assert(self.binds_at(name, i));
    }

    pub fn new() -> (r: Self)
        ensures
            r.wf(),
            r.dict() == Map::<Seq<char>, T::V>::empty(),
    {
        let r = Table { entries: Vec::new() };
        assert(r.dict() =~= Map::<Seq<char>, T::V>::empty());
        r
    }

    /// The position at which `name` is bound.
    pub fn find(&self, name: &String) -> (r: Option<usize>)
        requires
            self.wf(),
        ensures
            match r {
                Some(i) => self.binds_at(name@, i as int) && self.dict().contains_key(name@)
                    && self.dict()[name@] == self.entries@[i as int].item@,
                None => !self.dict().contains_key(name@),
            },
    {
        let mut i: usize = 0;
        while i < self.entries.len()
            invariant
                self.wf(),
                i <= self.entries.len(),
                forall|j: int| 0 <= j < i ==> !self.binds_at(name@, j),
            decreases self.entries.len() - i,
        {
            if self.entries[i].name == *name {
                proof {
                    self.lemma_bound(name@, i as int);
                }
                return Some(i);
            }
            i += 1;
        }
        proof {
            if self.dict().contains_key(name@) {
                self.lemma_held(name@);
            }
        }
        None
    }

    /// Binds `name` to `item`, in place of what it was bound to before.
    pub fn put(&mut self, name: String, item: T)
        requires
            old(self).wf(),
        ensures
            final(self).wf(),
            final(self).dict() == old(self).dict().insert(name@, item@),
    {
        let ghost before = *self;
        let ghost key = name@;
        let ghost model = item@;
        let found = self.find(&name);
        match found {
            Some(i) => {
                self.entries[i] = Entry { name, item };
                assert(self.entries@ == before.entries@.update(i as int, self.entries@[i as int]));
                assert(self.entries@[i as int].name@ == key);
                assert(self.entries@[i as int].item@ == model);
                assert forall|k: Seq<char>, j: int|
                    self.binds_at(k, j) <==> before.binds_at(k, j) by {}
                assert(self.wf());
                assert forall|k: Seq<char>|
                    self.dict().contains_key(k) <==> #[trigger] before.dict().insert(
                        key,
                        model,
                    ).contains_key(k) by {
                    if self.dict().contains_key(k) {
                        self.lemma_held(k);
                        before.lemma_bound(k, self.position(k));
                    }
                    if before.dict().contains_key(k) {
                        before.lemma_held(k);
                        self.lemma_bound(k, before.position(k));
                    }
                    if k == key {
                        self.lemma_bound(k, i as int);
                    }
                }
                assert forall|k: Seq<char>| #[trigger]
                    self.dict().contains_key(k) implies self.dict()[k] == before.dict().insert(
                    key,
                    model,
                )[k] by {
                    self.lemma_held(k);
                    let p = self.position(k);
                    self.lemma_bound(k, p);
                    before.lemma_bound(k, p);
                    if k == key {
                        self.lemma_bound(k, i as int);
                    }
                }
                assert(self.dict() =~= before.dict().insert(key, model));
            },
            None => {
                self.entries.push(Entry { name, item });
                let ghost n = before.entries@.len() as int;
                assert(self.entries@ == before.entries@.push(self.entries@[n]));
                assert(self.entries@[n].name@ == key);
                assert(self.entries@[n].item@ == model);
                assert forall|k: Seq<char>, j: int|
                    self.binds_at(k, j) <==> (before.binds_at(k, j) || (k == key && j == n)) by {}
                assert forall|i: int, j: int| 0 <= i < j < self.entries@.len() implies self.entries@[i].name@
                    != self.entries@[j].name@ by {
                    if j == n {
                        if self.entries@[i].name@ == key {
                            assert(before.binds_at(key, i));
                            before.lemma_bound(key, i);
                        }
                    }
                }
                assert(self.wf());
                assert(self.binds_at(key, n));
                proof {
                    self.lemma_bound(key, n);
                }
                assert forall|k: Seq<char>|
                    self.dict().contains_key(k) <==> #[trigger] before.dict().insert(
                        key,
                        model,
                    ).contains_key(k) by {
                    if self.dict().contains_key(k) {
                        self.lemma_held(k);
                        if k != key {
                            before.lemma_bound(k, self.position(k));
                        }
                    }
                    if before.dict().contains_key(k) {
                        before.lemma_held(k);
                        self.lemma_bound(k, before.position(k));
                    }
                }
                assert forall|k: Seq<char>| #[trigger]
                    self.dict().contains_key(k) implies self.dict()[k] == before.dict().insert(
                    key,
                    model,
                )[k] by {
                    self.lemma_held(k);
                    let p = self.position(k);
                    self.lemma_bound(k, p);
                    if k != key {
                        before.lemma_bound(k, p);
                    }
                }
                assert(self.dict() =~= before.dict().insert(key, model));
            },
        }
    }
}

} // verus!
