use vstd::prelude::*;

verus! {

/// Why a registration was refused.
#[derive(Debug, Clone, Copy, PartialEq, Eq, Structural)]
pub enum RegistryError {
    /// An entry is already registered under the identifier.
    AlreadyExists,
}

/// A table from client-chosen identifiers to the resources of a live entry.
///
/// Identifiers are unique; entries are kept in the order of registration.
pub struct Registry<V> {
    ids: Vec<String>,
    entries: Vec<V>,
    contents: Ghost<Map<Seq<char>, V>>,
}

impl<V> View for Registry<V> {
    type V = Map<Seq<char>, V>;

    closed spec fn view(&self) -> Map<Seq<char>, V> {
        self.contents@
    }
}

impl<V> Registry<V> {
    /// The identifiers, in the order of registration.
    pub closed spec fn order(&self) -> Seq<Seq<char>> {
        self.ids@.map_values(|s: String| s@)
    }

    /// The entries, in the order of registration.
    pub closed spec fn values(&self) -> Seq<V> {
        self.entries@
    }

    pub closed spec fn wf(&self) -> bool {
        &&& self.ids@.len() == self.entries@.len()
        &&& forall|i: int, j: int|
            0 <= i < j < self.ids@.len() ==> (#[trigger] self.ids@[i])@ != (#[trigger] self.ids@[j])@
        &&& forall|i: int|
            0 <= i < self.ids@.len() ==> self.contents@.contains_key(#[trigger] self.ids@[i]@)
                && self.contents@[self.ids@[i]@] == self.entries@[i]
        &&& forall|k: Seq<char>|
            #[trigger] self.contents@.contains_key(k) ==> exists|i: int|
                0 <= i < self.ids@.len() && (#[trigger] self.ids@[i])@ == k
    }

    pub fn new() -> (r: Self)
        ensures
            r.wf(),
            r@ == Map::<Seq<char>, V>::empty(),
    {
        Registry { ids: Vec::new(), entries: Vec::new(), contents: Ghost(Map::empty()) }
    }

    fn find(&self, id: &str) -> (r: Option<usize>)
        requires
            self.wf(),
        ensures
            r is None <==> !self@.contains_key(id@),
            r matches Some(i) ==> i < self.ids@.len() && self.ids@[i as int]@ == id@,
    {
        let key = String::from_str(id);
        let mut i: usize = 0;
        while i < self.ids.len()
            invariant
                self.wf(),
                key@ == id@,
                i <= self.ids@.len(),
                forall|j: int| 0 <= j < i ==> (#[trigger] self.ids@[j])@ != id@,
            decreases self.ids@.len() - i,
        {
            if self.ids[i] == key {
                return Some(i);
            }
            i = i + 1;
        }
        None
    }

    /// Whether an entry is registered under `id`.
    pub fn contains(&self, id: &str) -> (r: bool)
        requires
            self.wf(),
        ensures
            r == self@.contains_key(id@),
    {
        self.find(id).is_some()
    }

    /// Registers `entry` under `id`, unless `id` is already taken.
    pub fn register(&mut self, id: String, entry: V) -> (r: Result<(), RegistryError>)
        requires
            old(self).wf(),
        ensures
            final(self).wf(),
            old(self)@.contains_key(id@) ==> r == Err::<(), RegistryError>(RegistryError::AlreadyExists)
                && final(self)@ == old(self)@,
            !old(self)@.contains_key(id@) ==> r is Ok && final(self)@ == old(self)@.insert(id@, entry),
    {
        if self.contains(id.as_str()) {
            return Err(RegistryError::AlreadyExists);
        }
        let ghost k = id@;
        let ghost old_ids = self.ids@;
        self.contents = Ghost(self.contents@.insert(k, entry));
        self.ids.push(id);
        self.entries.push(entry);
        assert forall|kk: Seq<char>| #[trigger] self.contents@.contains_key(kk) implies exists|i: int|
            0 <= i < self.ids@.len() && (#[trigger] self.ids@[i])@ == kk by {
            if kk == k {
                assert(self.ids@[old_ids.len() as int]@ == kk);
            } else {
                let i = choose|i: int| 0 <= i < old_ids.len() && (#[trigger] old_ids[i])@ == kk;
                assert(self.ids@[i]@ == kk);
            }
        }
        Ok(())
    }

    /// The entry registered under `id`, if any; nothing is removed.
    pub fn lookup(&self, id: &str) -> (r: Option<&V>)
        requires
            self.wf(),
        ensures
            r is None <==> !self@.contains_key(id@),
            r matches Some(v) ==> *v == self@[id@],
    {
        match self.find(id) {
            Some(i) => Some(&self.entries[i]),
            None => None,
        }
    }

    /// Removes the entry registered under `id` and hands it back; absent ids are no error.
    pub fn remove(&mut self, id: &str) -> (r: Option<V>)
        requires
            old(self).wf(),
        ensures
            final(self).wf(),
            final(self)@ == old(self)@.remove(id@),
            r is None <==> !old(self)@.contains_key(id@),
            r matches Some(v) ==> v == old(self)@[id@],
    {
        match self.find(id) {
            None => None,
            Some(i) => {
                let ghost old_ids = self.ids@;
                let ghost old_entries = self.entries@;
                self.contents = Ghost(self.contents@.remove(id@));
                self.ids.remove(i);
                let v = self.entries.remove(i);
                assert forall|a: int, b: int|
                    0 <= a < b < self.ids@.len() implies (#[trigger] self.ids@[a])@ != (#[trigger] self.ids@[b])@ by {
                    let oa = if a < i { a } else { a + 1 };
                    let ob = if b < i { b } else { b + 1 };
                    assert(self.ids@[a] == old_ids[oa]);
                    assert(self.ids@[b] == old_ids[ob]);
                }
                assert forall|j: int| 0 <= j < self.ids@.len() implies self.contents@.contains_key(
                    #[trigger] self.ids@[j]@) && self.contents@[self.ids@[j]@] == self.entries@[j] by {
                    let oj = if j < i { j } else { j + 1 };
                    assert(self.ids@[j] == old_ids[oj]);
                    assert(self.entries@[j] == old_entries[oj]);
                }
                assert forall|kk: Seq<char>| #[trigger] self.contents@.contains_key(kk) implies exists|j: int|
                    0 <= j < self.ids@.len() && (#[trigger] self.ids@[j])@ == kk by {
                    let oj = choose|oj: int| 0 <= oj < old_ids.len() && (#[trigger] old_ids[oj])@ == kk;
                    let j = if oj < i { oj } else { oj - 1 };
                    assert(self.ids@[j] == old_ids[oj]);
                }
                Some(v)
            }
        }
    }

    /// The registered entries, in the order of registration, one for each id.
    pub fn entries(&self) -> (r: Vec<&V>)
        requires
            self.wf(),
        ensures
            r@.len() == self.order().len(),
            self.order().no_duplicates(),
            forall|i: int| 0 <= i < r@.len() ==> *r@[i] == self@[#[trigger] self.order()[i]],
            forall|k: Seq<char>| self@.contains_key(k) <==> #[trigger] self.order().contains(k),
    {
        let mut out: Vec<&V> = Vec::new();
        let mut i: usize = 0;
        while i < self.entries.len()
            invariant
                self.wf(),
                i <= self.entries@.len(),
                out@.len() == i,
                forall|j: int| 0 <= j < i ==> *out@[j] == self.entries@[j],
            decreases self.entries@.len() - i,
        {
            out.push(&self.entries[i]);
            i = i + 1;
        }
        assert forall|k: Seq<char>| self@.contains_key(k) <==> #[trigger] self.order().contains(k) by {
            if self@.contains_key(k) {
                let j = choose|j: int| 0 <= j < self.ids@.len() && (#[trigger] self.ids@[j])@ == k;
                assert(self.order()[j] == k);
            }
            if self.order().contains(k) {
                let j = choose|j: int| 0 <= j < self.order().len() && self.order()[j] == k;
                assert(self.ids@[j]@ == k);
            }
        }
        out
    }

    /// The registered ids, in the order of registration.
    pub fn ids(&self) -> (r: Vec<String>)
        requires
            self.wf(),
        ensures
            r@.map_values(|s: String| s@) == self.order(),
            forall|k: Seq<char>| self@.contains_key(k) <==> #[trigger] self.order().contains(k),
    {
        let mut out: Vec<String> = Vec::new();
        let mut i: usize = 0;
        while i < self.ids.len()
            invariant
                self.wf(),
                i <= self.ids@.len(),
                out@.map_values(|s: String| s@) == self.order().take(i as int),
            decreases self.ids@.len() - i,
        {
            let ghost before = out@;
            out.push(self.ids[i].clone());
            assert(out@.map_values(|s: String| s@) =~= before.map_values(|s: String| s@).push(self.ids@[i as int]@));
            assert(self.order().take(i + 1) =~= self.order().take(i as int).push(self.ids@[i as int]@));
            i = i + 1;
        }
        assert(self.order().take(self.ids@.len() as int) =~= self.order());
        assert forall|k: Seq<char>| self@.contains_key(k) <==> #[trigger] self.order().contains(k) by {
            if self@.contains_key(k) {
                let j = choose|j: int| 0 <= j < self.ids@.len() && (#[trigger] self.ids@[j])@ == k;
                assert(self.order()[j] == k);
            }
            if self.order().contains(k) {
                let j = choose|j: int| 0 <= j < self.order().len() && self.order()[j] == k;
                assert(self.ids@[j]@ == k);
            }
        }
        out
    }
}

} // verus!
