use vstd::prelude::*;

verus! {

/// Identifies a module of a compilation.
#[derive(Copy, Clone, PartialEq, Eq, Structural, Debug, Hash)]
pub struct ModuleId(pub usize);

impl ModuleId {
    pub fn new(id: usize) -> (r: Self)
        ensures
            r == ModuleId(id),
    {
        ModuleId(id)
    }
}

/// Identifies a node of the syntax within a module.
#[derive(Copy, Clone, PartialEq, Eq, Structural, Debug, Hash)]
pub struct NodeId {
    pub module: ModuleId,
    pub id: usize,
}

impl NodeId {
    pub fn new(module: ModuleId, id: usize) -> (r: Self)
        ensures
            r == (NodeId { module, id }),
    {
        NodeId { module, id }
    }
}

/// Hands out the node ids of one module, counting up from zero.
#[derive(Clone, PartialEq, Eq, Structural, Debug)]
pub struct NodeIdGenerator {
    pub module_id: ModuleId,
    pub id: usize,
}

/// `generate` called on `before` gives `id` and leaves `after`.
pub open spec fn generates(before: NodeIdGenerator, id: NodeId, after: NodeIdGenerator) -> bool {
    &&& before.id < usize::MAX
    &&& id == (NodeId { module: before.module_id, id: before.id })
    &&& after == (NodeIdGenerator { module_id: before.module_id, id: (before.id + 1) as usize })
}

impl NodeIdGenerator {
    pub fn new(module_id: ModuleId) -> (r: Self)
        ensures
            r == (NodeIdGenerator { module_id, id: 0 }),
    {
        NodeIdGenerator { module_id, id: 0 }
    }

    /// The next node id of the module.
    pub fn generate(&mut self) -> (r: NodeId)
        requires
            old(self).id < usize::MAX,
        ensures
            generates(*old(self), r, *final(self)),
    {
        let node_id = NodeId { module: self.module_id, id: self.id };
        self.id = self.id + 1;
        node_id
    }
}

/// A generator never hands out the same id twice: an id generated before
/// another generation of the same generator differs from it.
pub proof fn law_generated_ids_distinct(
    g1: NodeIdGenerator,
    a: NodeId,
    g2: NodeIdGenerator,
    h1: NodeIdGenerator,
    b: NodeId,
    h2: NodeIdGenerator,
)
    requires
        generates(g1, a, g2),
        generates(h1, b, h2),
        g2.module_id == h1.module_id,
        g2.id <= h1.id,
    ensures
        a != b,
{
}

} // verus!
