//! The generic content-registry container: definitions keyed by a stable id.
//!
//! Built from `(id, def)` entries; when an id occurs more than once the later entry
//! wins, as when the entries are collected into a map. Consumers only go through
//! [`Registry::get`].
use vstd::prelude::*;

verus! {

/// An id a registry can be keyed by: a copyable value with an exact equality test.
pub trait RegistryKey: Copy {
    /// Whether two ids are the same id.
    fn same_key(&self, other: &Self) -> (r: bool)
        ensures
            r == (*self == *other),
    ;
}

/// The definition for `id` among `entries`: the last entry with that id, if any.
pub open spec fn lookup<Id, Def>(entries: Seq<(Id, Def)>, id: Id) -> Option<Def>
    decreases entries.len(),
{
    if entries.len() == 0 {
        None
    } else if entries.last().0 == id {
        Some(entries.last().1)
    } else {
        lookup(entries.drop_last(), id)
    }
}

/// A content registry: every `Def` of one domain, keyed by its stable `Id`.
pub struct Registry<Id, Def> {
    defs: Vec<(Id, Def)>,
}

impl<Id: RegistryKey, Def> Registry<Id, Def> {
    /// The entries the registry was built from, in order.
    pub closed spec fn entries(&self) -> Seq<(Id, Def)> {
        self.defs@
    }

    /// The definition registered for `id`, if any.
    pub open spec fn spec_get(&self, id: Id) -> Option<Def> {
        lookup(self.entries(), id)
    }

    /// Build a registry from `(id, def)` entries (a domain's authored defs table).
    pub fn new(entries: Vec<(Id, Def)>) -> (r: Self)
        ensures
            r.entries() == entries@,
    {
        Registry { defs: entries }
    }

    /// The definition for `id`, or `None` when none is registered.
    pub fn find(&self, id: Id) -> (r: Option<&Def>)
        ensures
            r is Some <==> self.spec_get(id) is Some,
            r matches Some(d) ==> *d == self.spec_get(id).unwrap(),
    {
        let mut i = self.defs.len();
        assert(self.defs@.subrange(0, i as int) == self.defs@);
        while i > 0
            invariant
                i <= self.defs@.len(),
                lookup(self.defs@, id) == lookup(self.defs@.subrange(0, i as int), id),
            decreases i,
        {
            let ghost prefix = self.defs@.subrange(0, i as int);
            assert(prefix.drop_last() == self.defs@.subrange(0, i - 1));
            if self.defs[i - 1].0.same_key(&id) {
                return Some(&self.defs[i - 1].1);
            }
            i -= 1;
        }
        assert(self.defs@.subrange(0, 0).len() == 0);
        None
    }

    /// The definition for `id`. Every id the registry serves has one; asking for an
    /// id it lacks is a registry-construction bug, which callers rule out.
    pub fn get(&self, id: Id) -> (r: &Def)
        requires
            self.spec_get(id) is Some,
        ensures
            *r == self.spec_get(id).unwrap(),
    {
        match self.find(id) {
            Some(d) => d,
            None => unreached(),
        }
    }
}

} // verus!
