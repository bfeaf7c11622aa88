//! A name-indexed store that hands out stable integer ids.
//!
//! Ids are positions in insertion order and always resolve to the value that
//! was stored under them. A name resolves to the id of the most recent insert
//! under that name: re-inserting a name shadows the older entry for lookups by
//! name, while lookups by id still reach it.
use vstd::prelude::*;
use vstd::string::StringExecFns;

verus! {

/// The id of the last entry of `names` equal to `name`, if any.
pub open spec fn last_index_of(names: Seq<Seq<char>>, name: Seq<char>) -> Option<int>
    decreases names.len(),
{
    if names.len() == 0 {
        None
    } else if names.last() == name {
        Some(names.len() - 1)
    } else {
        last_index_of(names.drop_last(), name)
    }
}

/// `last_index_of` finds an equal entry with no equal entry after it, or
/// there is no equal entry at all.
pub proof fn lemma_last_index_of(names: Seq<Seq<char>>, name: Seq<char>)
    ensures
        match last_index_of(names, name) {
            Some(i) => 0 <= i < names.len() && names[i] == name
                && forall|j: int| i < j < names.len() ==> names[j] != name,
            None => forall|j: int| 0 <= j < names.len() ==> names[j] != name,
        },
    decreases names.len(),
{
    if names.len() > 0 && names.last() != name {
        lemma_last_index_of(names.drop_last(), name);
        assert(forall|j: int| 0 <= j < names.len() - 1 ==> names.drop_last()[j] == names[j]);
    }
}

pub struct IdMapper<T> {
    names: Vec<String>,
    values: Vec<T>,
}

impl<T> IdMapper<T> {
    /// The name each id was inserted under.
    pub closed spec fn names(&self) -> Seq<Seq<char>> {
        self.names@.map_values(|s: String| s@)
    }

    /// The value stored under each id.
    pub closed spec fn values(&self) -> Seq<T> {
        self.values@
    }

    pub open spec fn wf(&self) -> bool {
        &&& self.names().len() == self.values().len()
        &&& self.values().len() <= usize::MAX
    }

    /// The id that a lookup by `name` resolves to.
    pub open spec fn id_of(&self, name: Seq<char>) -> Option<int> {
        last_index_of(self.names(), name)
    }

    pub fn new() -> (r: Self)
        ensures
            r.wf(),
            r.names().len() == 0,
    {
        IdMapper { names: Vec::new(), values: Vec::new() }
    }

    pub fn len(&self) -> (r: usize)
        requires
            self.wf(),
        ensures
            r == self.values().len(),
    {
        self.values.len()
    }

    /// Stores `value` under the next id and makes `name` resolve to it.
    pub fn insert(&mut self, name: &str, value: T) -> (id: usize)
        requires
            old(self).wf(),
        ensures
            final(self).wf(),
            id == old(self).values().len(),
            final(self).names() == old(self).names().push(name@),
            final(self).values() == old(self).values().push(value),
    {
        self.values.push(value);
        self.names.push(name.to_string());
        let id = self.values.len() - 1;
        assert(self.names() =~= old(self).names().push(name@));
        id
    }

    pub fn get_id_by_name(&self, name: &str) -> (r: Option<usize>)
        requires
            self.wf(),
        ensures
            r is None <==> self.id_of(name@) is None,
            r matches Some(i) ==> self.id_of(name@) == Some(i as int) && i < self.values().len(),
    {
        proof {
            lemma_last_index_of(self.names(), name@);
        }
        let key = String::from_str(name);
        let mut i: usize = self.names.len();
        while i > 0
            invariant
                i <= self.names@.len(),
                self.names().len() == self.names@.len(),
                key@ == name@,
                self.wf(),
                forall|j: int| 0 <= j < self.names@.len() ==> self.names()[j] == self.names@[j]@,
                forall|j: int| i <= j < self.names().len() ==> self.names()[j] != name@,
                match self.id_of(name@) {
                    Some(k) => 0 <= k < self.names().len() && self.names()[k] == name@
                        && forall|j: int| k < j < self.names().len() ==> self.names()[j] != name@,
                    None => forall|j: int| 0 <= j < self.names().len() ==> self.names()[j] != name@,
                },
            decreases i,
        {
            i = i - 1;
            if self.names[i] == key {
                assert(self.names()[i as int] == name@);
                assert(self.id_of(name@) == Some(i as int)) by {
                    if let Some(k) = self.id_of(name@) {
                        if k < i {
                            assert(self.names()[i as int] != name@);
                        }
                    }
                }
                return Some(i);
            }
        }
        None
    }

    pub fn get_by_id(&self, id: usize) -> (r: &T)
        requires
            self.wf(),
            id < self.values().len(),
        ensures
            *r == self.values()[id as int],
    {
        &self.values[id]
    }

    /// Gives write access to the value that `name` resolves to.
    pub fn get_by_name_mut(&mut self, name: &str) -> (r: Option<&mut T>)
        requires
            old(self).wf(),
        ensures
            final(self).wf(),
            final(self).names() == old(self).names(),
            r is None <==> old(self).id_of(name@) is None,
            old(self).id_of(name@) is None ==> final(self).values() == old(self).values(),
            old(self).id_of(name@) matches Some(i) ==> {
                &&& r matches Some(m)
                &&& *m == old(self).values()[i]
                &&& final(self).values() == old(self).values().update(i, *final(m))
            },
    {
        match self.get_id_by_name(name) {
            Some(id) => Some(&mut self.values[id]),
            None => None,
        }
    }

    pub fn get_by_name(&self, name: &str) -> (r: Option<&T>)
        requires
            self.wf(),
        ensures
            match self.id_of(name@) {
                Some(i) => r == Some(&self.values()[i]),
                None => r is None,
            },
    {
        proof {
            lemma_last_index_of(self.names(), name@);
        }
        match self.get_id_by_name(name) {
            Some(id) => Some(&self.values[id]),
            None => None,
        }
    }
}

} // verus!
