use vstd::hash_map::StringHashMap;
use vstd::prelude::*;

verus! {

/// Why a cache turned an entry away, or could not be put together.
#[derive(Clone, Copy, Debug, PartialEq, Eq, Structural)]
pub enum CacheError {
    /// The name is taken already, by the entry at `idx`.
    DuplicateName { idx: usize },
    /// A name is bound to `idx`, and there is no such entry.
    IndexOutOfRange { idx: usize },
    /// More than one name is bound to `idx`.
    IndexTaken { idx: usize },
    /// No name is bound to the entry at `idx`.
    Unnamed { idx: usize },
}

/// An append-only store of named values. Every entry gets the next free
/// index when it is added and keeps it for good; a name is bound once.
pub struct Cache<T> {
    idxs: StringHashMap<usize>,
    names: Vec<String>,
    items: Vec<T>,
}

impl<T> Cache<T> {
    /// The names of the entries, in the order in which they were added.
    pub closed spec fn names(&self) -> Seq<Seq<char>> {
        Seq::new(self.names@.len(), |i: int| self.names@[i]@)
    }

    /// The values of the entries, in the order in which they were added.
    pub closed spec fn items(&self) -> Seq<T> {
        self.items@
    }

    /// The name table answers exactly for the names in `names()`, each with
    /// its position.
    pub closed spec fn lookup_agrees(&self) -> bool {
        &&& forall|i: int|
            0 <= i < self.names@.len() ==> {
                &&& self.idxs@.contains_key(#[trigger] self.names@[i]@)
                &&& self.idxs@[self.names@[i]@] == i
            }
        &&& forall|name: Seq<char>| #[trigger]
            self.idxs@.contains_key(name) ==> {
                &&& (self.idxs@[name] as int) < self.names@.len()
                &&& self.names@[self.idxs@[name] as int]@ == name
            }
    }

    /// Every entry has one name and one value, and no name occurs twice.
    pub open spec fn wf(&self) -> bool {
        &&& self.names().len() == self.items().len()
        &&& self.names().no_duplicates()
        &&& self.lookup_agrees()
    }

    /// The number of entries.
    pub open spec fn spec_len(&self) -> nat {
        self.items().len()
    }

    /// Whether an entry was added under `name`.
    pub open spec fn has_name(&self, name: Seq<char>) -> bool {
        self.names().contains(name)
    }

    /// The index bound to `name`, if any.
    pub open spec fn spec_idx_for(&self, name: Seq<char>) -> Option<usize> {
        if self.has_name(name) {
            Some(self.names().index_of(name) as usize)
        } else {
            None
        }
    }

    /// A cache without entries.
    pub fn new() -> (cache: Self)
        ensures
            cache.wf(),
            cache.names() == Seq::<Seq<char>>::empty(),
            cache.items() == Seq::<T>::empty(),
    {
        Cache { idxs: StringHashMap::new(), names: Vec::new(), items: Vec::new() }
    }

    /// The number of entries.
    pub fn len(&self) -> (n: usize)
        requires
            self.wf(),
        ensures
            n == self.spec_len(),
    {
        self.items.len()
    }

    /// Adds `item` under `name`, unless the name is taken.
    pub fn try_add(&mut self, name: &str, item: T) -> (r: Result<usize, CacheError>)
        requires
            old(self).wf(),
        ensures
            final(self).wf(),
            match r {
                Ok(idx) => {
                    &&& !old(self).has_name(name@)
                    &&& idx == old(self).spec_len()
                    &&& final(self).names() == old(self).names().push(name@)
                    &&& final(self).items() == old(self).items().push(item)
                },
                Err(e) => {
                    &&& old(self).has_name(name@)
                    &&& e matches CacheError::DuplicateName { idx }
                    &&& old(self).spec_idx_for(name@) == Some(idx)
                    &&& *final(self) == *old(self)
                },
            },
    {
        let taken = match self.idxs.get(name) {
            Some(idx) => Some(*idx),
            None => None,
        };
        match taken {
            Some(idx) => {
                proof {
                    self.lemma_idx_for(name@, idx as int);
                }
                Err(CacheError::DuplicateName { idx })
            },
            None => {
                proof {
                    if self.has_name(name@) {
                        let i = self.names().index_of(name@);
                        assert(self.idxs@.contains_key(self.names@[i]@));
                    }
                }
                let idx = self.items.len();
                self.idxs.insert(name.to_owned(), idx);
                self.names.push(name.to_owned());
                self.items.push(item);
                proof {
                    assert forall|i: int| 0 <= i < self.names@.len() implies {
                        &&& self.idxs@.contains_key(#[trigger] self.names@[i]@)
                        &&& self.idxs@[self.names@[i]@] == i
                    } by {}
                    assert forall|i: int, j: int|
                        0 <= i < self.names().len() && 0 <= j < self.names().len() && i != j
                        implies self.names()[i] != self.names()[j] by {}
                }
                Ok(idx)
            },
        }
    }

    /// Adds `item` under `name` and returns the index that it will be found
    /// under from now on. The name must be new to the cache.
    pub fn add(&mut self, name: &str, item: T) -> (idx: usize)
        requires
            old(self).wf(),
            !old(self).has_name(name@),
        ensures
            final(self).wf(),
            idx == old(self).spec_len(),
            final(self).names() == old(self).names().push(name@),
            final(self).items() == old(self).items().push(item),
    {
        match self.try_add(name, item) {
            Ok(idx) => idx,
            Err(_) => unreached(),
        }
    }

    /// The index that `name` is bound to.
    pub fn idx_for(&self, name: &str) -> (r: Option<usize>)
        requires
            self.wf(),
        ensures
            r == self.spec_idx_for(name@),
            match r {
                Some(idx) => idx < self.spec_len() && self.names()[idx as int] == name@,
                None => !self.has_name(name@),
            },
    {
        match self.idxs.get(name) {
            Some(idx) => {
                proof {
                    self.lemma_idx_for(name@, *idx as int);
                }
                Some(*idx)
            },
            None => {
                proof {
                    if self.has_name(name@) {
                        let i = self.names().index_of(name@);
                        assert(self.idxs@.contains_key(self.names@[i]@));
                    }
                }
                None
            },
        }
    }

    /// The value of the entry at `idx`.
    pub fn get(&self, idx: usize) -> (item: &T)
        requires
            self.wf(),
            idx < self.spec_len(),
        ensures
            *item == self.items()[idx as int],
    {
        &self.items[idx]
    }

    /// The name of the entry at `idx`.
    pub fn name_of(&self, idx: usize) -> (name: &str)
        requires
            self.wf(),
            idx < self.spec_len(),
        ensures
            name@ == self.names()[idx as int],
    {
        self.names[idx].as_str()
    }

    /// Indices follow the order of insertion, counted from zero: the name at
    /// position `i` is bound to `i`.
    pub proof fn lemma_idx_for(&self, name: Seq<char>, i: int)
        requires
            self.wf(),
            0 <= i < self.names().len(),
            self.names()[i] == name,
        ensures
            self.has_name(name),
            self.spec_idx_for(name) == Some(i as usize),
    {
        assert(self.names()[self.names().index_of(name)] == name);
    }

    /// An index is stable: adding an entry under a new name changes the index
    /// of no name that was bound before, and binds the new name to the next
    /// free index.
    pub proof fn lemma_add_keeps_indices(&self, after: &Cache<T>, added: Seq<char>, name: Seq<char>)
        requires
            self.wf(),
            after.wf(),
            after.names() == self.names().push(added),
        ensures
            self.has_name(name) ==> after.spec_idx_for(name) == self.spec_idx_for(name),
            after.spec_idx_for(added) == Some(self.spec_len() as usize),
    {
        after.lemma_idx_for(added, self.names().len() as int);
        if self.has_name(name) {
            let i = self.names().index_of(name);
            self.lemma_idx_for(name, i);
            after.lemma_idx_for(name, i);
        }
    }

    /// A name that was never added has no index, and a bound name has
    /// exactly one, which lies within the cache.
    pub proof fn lemma_idx_for_is_exact(&self, name: Seq<char>, idx: usize)
        requires
            self.wf(),
        ensures
            self.spec_idx_for(name) is None <==> !self.has_name(name),
            self.spec_idx_for(name) == Some(idx) <==> idx < self.spec_len() && self.names()[idx as int]
                == name,
    {
        if idx < self.spec_len() && self.names()[idx as int] == name {
            self.lemma_idx_for(name, idx as int);
        }
        if self.has_name(name) {
            let i = self.names().index_of(name);
            self.lemma_idx_for(name, i);
        }
    }
}

impl<T> Default for Cache<T> {
    /// A cache without entries.
    fn default() -> (cache: Self)
        ensures
            cache.wf(),
            cache.names() == Seq::<Seq<char>>::empty(),
            cache.items() == Seq::<T>::empty(),
    {
        Cache::new()
    }
}

impl<T> std::ops::Index<usize> for Cache<T> {
    type Output = T;

    /// The value of the entry at `index`, which must lie within the cache.
    fn index(&self, index: usize) -> (item: &T)
        ensures
            *item == self.items()[index as int],
    {
        self.get(index)
    }
}

impl<T> vstd::std_specs::core::IndexSpecImpl<usize> for Cache<T> {
    open spec fn index_req(&self, index: &usize) -> bool {
        self.wf() && *index < self.spec_len()
    }
}

/// A name table as it is written down: names with the index each is bound
/// to, in no particular order.
pub type Bindings = Seq<(Seq<char>, usize)>;

/// The bindings that a vector of pairs stands for.
pub open spec fn bindings_of(idxs: Seq<(String, usize)>) -> Bindings {
    Seq::new(idxs.len(), |k: int| (idxs[k].0@, idxs[k].1))
}

/// One of the first `k` bindings is to index `i`.
pub open spec fn bound_before(bindings: Bindings, k: int, i: int) -> bool {
    exists|l: int| 0 <= l < k && (#[trigger] bindings[l]).1 == i
}

/// What is wrong with binding `k` of a table for `n` entries, if anything:
/// its index lies outside, or an earlier binding has the index already.
pub open spec fn binding_fault(bindings: Bindings, n: nat, k: int) -> Option<CacheError> {
    let idx = bindings[k].1;
    if idx >= n {
        Some(CacheError::IndexOutOfRange { idx })
    } else if bound_before(bindings, k, idx as int) {
        Some(CacheError::IndexTaken { idx })
    } else {
        None
    }
}

/// Every binding leads to an entry, and no two to the same.
pub open spec fn bindings_sound(bindings: Bindings, n: nat) -> bool {
    forall|k: int| 0 <= k < bindings.len() ==> #[trigger] binding_fault(bindings, n, k) is None
}

/// Every one of the first `m` entries has a name.
pub open spec fn named_up_to(bindings: Bindings, m: int) -> bool {
    forall|i: int| 0 <= i < m ==> #[trigger] bound_before(bindings, bindings.len() as int, i)
}

/// The place of a binding to index `i`.
pub open spec fn binding_to(bindings: Bindings, i: int) -> int {
    choose|k: int| 0 <= k < bindings.len() && (#[trigger] bindings[k]).1 == i
}

/// The name that is bound to index `i`.
pub open spec fn name_at(bindings: Bindings, i: int) -> Seq<char> {
    bindings[binding_to(bindings, i)].0
}

/// The names of `n` entries, in the order of their indices.
pub open spec fn names_of(bindings: Bindings, n: nat) -> Seq<Seq<char>> {
    Seq::new(n, |i: int| name_at(bindings, i))
}

/// What is wrong with the name at position `i`, if anything: an earlier
/// entry has it already.
pub open spec fn name_fault(names: Seq<Seq<char>>, i: int) -> Option<CacheError> {
    if names.take(i).contains(names[i]) {
        Some(CacheError::DuplicateName { idx: names.take(i).index_of(names[i]) as usize })
    } else {
        None
    }
}

/// `e` is the first fault of a name table for `n` entries. The bindings are
/// read first, in the order in which they are written; then the entries, by
/// index, each for a name that is missing or that an earlier entry has.
pub open spec fn is_first_fault(bindings: Bindings, n: nat, e: CacheError) -> bool {
    match e {
        CacheError::IndexOutOfRange { .. } | CacheError::IndexTaken { .. } => exists|k: int|
            {
                &&& 0 <= k < bindings.len()
                &&& #[trigger] binding_fault(bindings, n, k) == Some(e)
                &&& forall|l: int| 0 <= l < k ==> #[trigger] binding_fault(bindings, n, l) is None
            },
        CacheError::Unnamed { idx } => {
            &&& bindings_sound(bindings, n)
            &&& idx < n
            &&& named_up_to(bindings, idx as int)
            &&& !bound_before(bindings, bindings.len() as int, idx as int)
            &&& forall|j: int|
                0 <= j < idx ==> #[trigger] name_fault(names_of(bindings, n), j) is None
        },
        CacheError::DuplicateName { .. } => {
            &&& bindings_sound(bindings, n)
            &&& exists|i: int|
                {
                    &&& 0 <= i < n
                    &&& named_up_to(bindings, i + 1)
                    &&& #[trigger] name_fault(names_of(bindings, n), i) == Some(e)
                    &&& forall|j: int|
                        0 <= j < i ==> #[trigger] name_fault(names_of(bindings, n), j) is None
                }
        },
    }
}

/// The slot holds `name`.
spec fn holds_name(slot: Option<String>, name: Seq<char>) -> bool {
    slot matches Some(held) && held@ == name
}

/// In a sound table the binding to an index is the only one, so its name is
/// the name at that index.
pub proof fn lemma_name_at(bindings: Bindings, n: nat, k: int)
    requires
        bindings_sound(bindings, n),
        0 <= k < bindings.len(),
    ensures
        name_at(bindings, bindings[k].1 as int) == bindings[k].0,
{
    let i = bindings[k].1 as int;
    let c = binding_to(bindings, i);
    if c < k {
        assert(binding_fault(bindings, n, k) is None);
    }
    if k < c {
        assert(binding_fault(bindings, n, c) is None);
    }
}

/// A table with a first fault is not one of a cache: its bindings are not
/// sound, or an entry has no name, or a name occurs twice.
pub proof fn lemma_first_fault_is_a_fault(bindings: Bindings, n: nat, e: CacheError)
    requires
        is_first_fault(bindings, n, e),
    ensures
        !(bindings_sound(bindings, n) && named_up_to(bindings, n as int) && names_of(
            bindings,
            n,
        ).no_duplicates()),
{
    match e {
        CacheError::IndexOutOfRange { .. } | CacheError::IndexTaken { .. } => {
            let k = choose|k: int|
                {
                    &&& 0 <= k < bindings.len()
                    &&& #[trigger] binding_fault(bindings, n, k) == Some(e)
                    &&& forall|l: int|
                        0 <= l < k ==> #[trigger] binding_fault(bindings, n, l) is None
                };
            assert(binding_fault(bindings, n, k) is Some);
        },
        CacheError::Unnamed { .. } => {},
        CacheError::DuplicateName { .. } => {
            let names = names_of(bindings, n);
            let i = choose|i: int|
                {
                    &&& 0 <= i < n
                    &&& named_up_to(bindings, i + 1)
                    &&& #[trigger] name_fault(names, i) == Some(e)
                    &&& forall|j: int| 0 <= j < i ==> #[trigger] name_fault(names, j) is None
                };
            let j = names.take(i).index_of(names[i]);
            assert(names[j] == names[i]);
        },
    }
}

impl<T> Cache<T> {
    /// Puts a cache together from its parts as they are written down: the
    /// values in the order of their indices, and the name table as pairs of
    /// a name and its index, in any order. Every entry must have one name,
    /// and every name one entry of its own.
    pub fn from_parts(idxs: Vec<(String, usize)>, items: Vec<T>) -> (r: Result<Self, CacheError>)
        ensures
            match r {
                Ok(cache) => {
                    &&& cache.wf()
                    &&& cache.items() == items@
                    &&& cache.names() == names_of(bindings_of(idxs@), items@.len())
                    &&& bindings_sound(bindings_of(idxs@), items@.len())
                    &&& named_up_to(bindings_of(idxs@), items@.len() as int)
                },
                Err(e) => is_first_fault(bindings_of(idxs@), items@.len(), e),
            },
            r is Ok <==> {
                &&& bindings_sound(bindings_of(idxs@), items@.len())
                &&& named_up_to(bindings_of(idxs@), items@.len() as int)
                &&& names_of(bindings_of(idxs@), items@.len()).no_duplicates()
            },
    {
        let n = items.len();
        let ghost bindings = bindings_of(idxs@);
        let mut slots: Vec<Option<String>> = Vec::new();
        while slots.len() < n
            invariant
                slots@.len() <= n,
                forall|i: int| 0 <= i < slots@.len() ==> slots@[i] is None,
            decreases n - slots@.len(),
        {
            slots.push(None);
        }
        let mut k: usize = 0;
        while k < idxs.len()
            invariant
                k <= idxs@.len(),
                slots@.len() == n,
                n == items@.len(),
                bindings == bindings_of(idxs@),
                forall|l: int| 0 <= l < k ==> #[trigger] binding_fault(bindings, n as nat, l) is None,
                forall|i: int|
                    0 <= i < n ==> (#[trigger] slots@[i] is Some <==> bound_before(
                        bindings,
                        k as int,
                        i,
                    )),
                forall|l: int|
                    0 <= l < k ==> holds_name(
                        slots@[(#[trigger] bindings[l]).1 as int],
                        bindings[l].0,
                    ),
            decreases idxs@.len() - k,
        {
            let idx = idxs[k].1;
            if idx >= n {
                proof {
                    lemma_first_fault_is_a_fault(
                        bindings,
                        n as nat,
                        CacheError::IndexOutOfRange { idx },
                    );
                }
                return Err(CacheError::IndexOutOfRange { idx });
            }
            if slots[idx].is_some() {
                proof {
                    lemma_first_fault_is_a_fault(bindings, n as nat, CacheError::IndexTaken { idx });
                }
                return Err(CacheError::IndexTaken { idx });
            }
            let name = idxs[k].0.clone();
            slots.set(idx, Some(name));
            proof {
                assert(binding_fault(bindings, n as nat, k as int) is None);
                assert forall|i: int| 0 <= i < n implies (#[trigger] slots@[i] is Some
                    <==> bound_before(bindings, k as int + 1, i)) by {
                    if i != idx && bound_before(bindings, k as int + 1, i) {
                        let l = choose|l: int| 0 <= l < k + 1 && (#[trigger] bindings[l]).1 == i;
                        assert(l < k);
                    }
                }
                assert forall|l: int| 0 <= l < k + 1 implies holds_name(
                    slots@[(#[trigger] bindings[l]).1 as int],
                    bindings[l].0,
                ) by {
                    if l < k {
                        assert(binding_fault(bindings, n as nat, l) is None);
                    }
                }
            }
            k += 1;
        }
        let ghost names = names_of(bindings, n as nat);
        let mut named: Cache<()> = Cache::new();
        let mut i: usize = 0;
        while i < n
            invariant
                i <= n,
                slots@.len() == n,
                n == items@.len(),
                bindings == bindings_of(idxs@),
                names == names_of(bindings, n as nat),
                bindings_sound(bindings, n as nat),
                forall|j: int|
                    0 <= j < n ==> (#[trigger] slots@[j] is Some <==> bound_before(
                        bindings,
                        bindings.len() as int,
                        j,
                    )),
                forall|l: int|
                    0 <= l < bindings.len() ==> holds_name(
                        slots@[(#[trigger] bindings[l]).1 as int],
                        bindings[l].0,
                    ),
                named.wf(),
                named.names() == names.take(i as int),
                named_up_to(bindings, i as int),
                forall|j: int| 0 <= j < i ==> #[trigger] name_fault(names, j) is None,
            decreases n - i,
        {
            match &slots[i] {
                None => {
                    proof {
                        lemma_first_fault_is_a_fault(
                            bindings,
                            n as nat,
                            CacheError::Unnamed { idx: i },
                        );
                    }
                    return Err(CacheError::Unnamed { idx: i });
                },
                Some(name) => {
                    proof {
                        let l = choose|l: int|
                            0 <= l < bindings.len() && (#[trigger] bindings[l]).1 == i;
                        lemma_name_at(bindings, n as nat, l);
                    }
                    match named.try_add(name.as_str(), ()) {
                        Ok(_) => {
                            proof {
                                assert(names.take(i as int + 1) =~= names.take(i as int).push(
                                    names[i as int],
                                ));
                            }
                        },
                        Err(e) => {
                            proof {
                                assert(name_fault(names, i as int) == Some(e));
                                lemma_first_fault_is_a_fault(bindings, n as nat, e);
                            }
                            return Err(e);
                        },
                    }
                },
            }
            i += 1;
        }
        Ok(Cache { idxs: named.idxs, names: named.names, items })
    }
}

} // verus!
