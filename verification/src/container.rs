use vstd::prelude::*;

verus! {

/// A value that a provider may bind to an attribute name: a handle to a
/// native function or class, or a plain constant.
#[derive(Debug, PartialEq, Eq)]
pub enum AttrValue {
    /// A handle to a native function.
    Function(u64),
    /// A handle to a native class.
    Class(u64),
    /// A text constant.
    Text(String),
    /// An integer constant.
    Int(i64),
}

/// The mathematical image of an [`AttrValue`]: text is taken to its
/// character sequence, handles and integers stand as themselves.
pub enum AttrModel {
    Function(u64),
    Class(u64),
    Text(Seq<char>),
    Int(i64),
}

impl View for AttrValue {
    type V = AttrModel;

    open spec fn view(&self) -> AttrModel {
        match self {
            AttrValue::Function(h) => AttrModel::Function(*h),
            AttrValue::Class(h) => AttrModel::Class(*h),
            AttrValue::Text(s) => AttrModel::Text(s@),
            AttrValue::Int(n) => AttrModel::Int(*n),
        }
    }
}

/// The mapping described by a sequence of bindings, later entries shadowing
/// earlier ones of the same name.
spec fn map_of(s: Seq<(String, AttrValue)>) -> Map<Seq<char>, AttrModel>
    decreases s.len(),
{
    if s.len() == 0 {
        Map::empty()
    } else {
        map_of(s.drop_last()).insert(s.last().0@, s.last().1@)
    }
}

/// The attribute names of a sequence of bindings are pairwise distinct.
spec fn distinct_names(s: Seq<(String, AttrValue)>) -> bool {
    forall|i: int, j: int| 0 <= i < j < s.len() ==> s[i].0@ != s[j].0@
}

/// A mutable, host-owned, name-addressable mapping from attribute names to
/// attribute values. The host creates it empty before registration and
/// retains it afterwards; a provider populates it through [`Self::set`].
pub struct ModuleContainer {
    bindings: Vec<(String, AttrValue)>,
}

impl View for ModuleContainer {
    type V = Map<Seq<char>, AttrModel>;

    closed spec fn view(&self) -> Map<Seq<char>, AttrModel> {
        map_of(self.bindings@)
    }
}

impl ModuleContainer {
    /// The container is name-addressable: each attribute name is bound at
    /// most once.
    pub closed spec fn wf(&self) -> bool {
        distinct_names(self.bindings@)
    }

    /// An empty container, as the host supplies it at import time.
    pub fn new() -> (r: Self)
        ensures
            r.wf(),
            r@ == Map::<Seq<char>, AttrModel>::empty(),
    {
        ModuleContainer { bindings: Vec::new() }
    }

    /// The position of the binding for `name`, if there is one.
    fn find_index(&self, name: &String) -> (r: Option<usize>)
        ensures
            match r {
                Some(i) => i < self.bindings@.len() && self.bindings@[i as int].0@ == name@,
                None => forall|j: int|
                    0 <= j < self.bindings@.len() ==> self.bindings@[j].0@ != name@,
            },
    {
        let mut i: usize = 0;
        while i < self.bindings.len()
            invariant
                i <= self.bindings@.len(),
                forall|j: int| 0 <= j < i ==> self.bindings@[j].0@ != name@,
            decreases self.bindings@.len() - i,
        {
            if self.bindings[i].0 == *name {
                return Some(i);
            }
            i += 1;
        }
        None
    }

    /// Binds `value` to `name`, replacing any earlier binding of the same
    /// name. This is the one capability the container offers a provider.
    pub fn set(&mut self, name: String, value: AttrValue)
        requires
            old(self).wf(),
        ensures
            final (self).wf(),
            final (self)@ == old(self)@.insert(name@, value@),
    {
        let ghost s0 = self.bindings@;
        let idx = self.find_index(&name);
        match idx {
            Some(i) => {
                self.bindings.remove(i);
                proof {
                    lemma_map_of_remove(s0, i as int);
                    assert forall|a: int, b: int|
                        0 <= a < b < s0.remove(i as int).len() implies s0.remove(i as int)[a].0@
                        != s0.remove(i as int)[b].0@ by {
                        assert(s0.remove(i as int)[a] == if a < i { s0[a] } else { s0[a + 1] });
                        assert(s0.remove(i as int)[b] == if b < i { s0[b] } else { s0[b + 1] });
                    }
                    assert forall|j: int|
                        0 <= j < s0.remove(i as int).len() implies s0.remove(i as int)[j].0@
                        != name@ by {
                        assert(s0.remove(i as int)[j] == if j < i { s0[j] } else { s0[j + 1] });
                    }
                }
            },
            None => {},
        }
        let ghost s1 = self.bindings@;
        self.bindings.push((name, value));
        proof {
            assert(self.bindings@.drop_last() =~= s1);
            assert(map_of(self.bindings@) == map_of(s1).insert(name@, value@));
            if let Some(i) = idx {
                lemma_map_of_contains(s0, name@);
                assert(map_of(s0).remove(name@).insert(name@, value@) =~= map_of(s0).insert(
                    name@,
                    value@,
                ));
            }
        }
    }

    /// Looks up the value bound to `name`, if any.
    pub fn get(&self, name: &String) -> (r: Option<&AttrValue>)
        requires
            self.wf(),
        ensures
            match r {
                Some(v) => self@.contains_key(name@) && v@ == self@[name@],
                None => !self@.contains_key(name@),
            },
    {
        let idx = self.find_index(name);
        match idx {
            Some(i) => {
                proof {
                    lemma_map_of_index(self.bindings@, i as int);
                }
                Some(&self.bindings[i].1)
            },
            None => {
                proof {
                    lemma_map_of_contains(self.bindings@, name@);
                }
                None
            },
        }
    }

    /// How many attributes are bound.
    pub fn len(&self) -> (r: usize)
        requires
            self.wf(),
        ensures
            r == self@.len(),
    {
        proof {
            lemma_map_of_len(self.bindings@);
        }
        self.bindings.len()
    }
}

/// A name is a key of `map_of(s)` exactly when some binding in `s` carries
/// it.
proof fn lemma_map_of_contains(s: Seq<(String, AttrValue)>, k: Seq<char>)
    ensures
        map_of(s).contains_key(k) <==> exists|i: int| 0 <= i < s.len() && s[i].0@ == k,
    decreases s.len(),
{
    if s.len() == 0 {
    } else {
        let dl = s.drop_last();
        lemma_map_of_contains(dl, k);
        if s.last().0@ == k {
            assert(s[s.len() - 1].0@ == k);
        } else {
            if map_of(s).contains_key(k) {
                let i = choose|i: int| 0 <= i < dl.len() && dl[i].0@ == k;
                assert(s[i].0@ == k);
            }
            if exists|i: int| 0 <= i < s.len() && s[i].0@ == k {
                let i = choose|i: int| 0 <= i < s.len() && s[i].0@ == k;
                assert(dl[i].0@ == k);
            }
        }
    }
}

/// With distinct names, each binding of `s` is read back from `map_of(s)`.
proof fn lemma_map_of_index(s: Seq<(String, AttrValue)>, i: int)
    requires
        distinct_names(s),
        0 <= i < s.len(),
    ensures
        map_of(s).contains_key(s[i].0@),
        map_of(s)[s[i].0@] == s[i].1@,
    decreases s.len(),
{
    if i < s.len() - 1 {
        let dl = s.drop_last();
        assert(distinct_names(dl));
        lemma_map_of_index(dl, i);
        assert(s.last().0@ != s[i].0@);
    }
}

/// With distinct names, removing the binding at `i` removes exactly its name
/// from the mapping.
proof fn lemma_map_of_remove(s: Seq<(String, AttrValue)>, i: int)
    requires
        distinct_names(s),
        0 <= i < s.len(),
    ensures
        map_of(s.remove(i)) == map_of(s).remove(s[i].0@),
    decreases s.len(),
{
    let k = s[i].0@;
    let dl = s.drop_last();
    assert(distinct_names(dl));
    if i == s.len() - 1 {
        assert(s.remove(i) =~= dl);
        lemma_map_of_contains(dl, k);
        assert forall|j: int| 0 <= j < dl.len() implies dl[j].0@ != k by {
            assert(s[j].0@ != s[i].0@);
        }
        assert(map_of(s).remove(k) =~= map_of(dl));
    } else {
        lemma_map_of_remove(dl, i);
        assert(s.remove(i).last() == s.last());
        assert(s.remove(i).drop_last() =~= dl.remove(i));
        assert(s.last().0@ != k);
        assert(map_of(s.remove(i)) == map_of(dl).remove(k).insert(s.last().0@, s.last().1@));
        assert(map_of(dl).remove(k).insert(s.last().0@, s.last().1@) =~= map_of(dl).insert(
            s.last().0@,
            s.last().1@,
        ).remove(k));
    }
}

/// With distinct names, the mapping has exactly one entry per binding.
proof fn lemma_map_of_len(s: Seq<(String, AttrValue)>)
    requires
        distinct_names(s),
    ensures
        map_of(s).dom().finite(),
        map_of(s).len() == s.len(),
    decreases s.len(),
{
    if s.len() > 0 {
        let dl = s.drop_last();
        assert(distinct_names(dl));
        lemma_map_of_len(dl);
        lemma_map_of_contains(dl, s.last().0@);
        assert forall|j: int| 0 <= j < dl.len() implies dl[j].0@ != s.last().0@ by {
            assert(s[j].0@ != s[s.len() - 1].0@);
        }
        assert(!map_of(dl).contains_key(s.last().0@));
    }
}

} // verus!
