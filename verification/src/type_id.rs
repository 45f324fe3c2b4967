use vstd::prelude::*;

verus! {

/// Identifies a type.
#[derive(Copy, Clone, PartialEq, Eq, Structural, Debug, Hash)]
pub struct TypeId(pub usize);

impl TypeId {
    pub fn new(id: usize) -> (r: Self)
        ensures
            r == TypeId(id),
    {
        TypeId(id)
    }
}

/// Hands out type ids, each one above the last.
#[derive(Debug)]
pub struct TypeIdGenerator {
    pub latest: usize,
}

impl TypeIdGenerator {
    pub fn new(initial: usize) -> (r: Self)
        ensures
            r.latest == initial,
    {
        TypeIdGenerator { latest: initial }
    }

    /// The id after the latest one handed out.
    pub fn next(&mut self) -> (r: TypeId)
        requires
            old(self).latest < usize::MAX,
        ensures
            final(self).latest == old(self).latest + 1,
            r == TypeId(final(self).latest),
    {
        self.latest = self.latest + 1;
        TypeId::new(self.latest)
    }
}

/// An id handed out by a later call, on a generator whose latest id has
/// since grown, is greater: no id repeats.
pub proof fn law_next_ids_increase(before: usize, first: TypeId, later: usize, second: TypeId)
    requires
        before < later,
        later < usize::MAX,
        first == TypeId((before + 1) as usize),
        second == TypeId((later + 1) as usize),
    ensures
        first.0 < second.0,
{
}

} // verus!
