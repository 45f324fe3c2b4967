use std::collections::HashMap;
use std::hash::Hash;
use vstd::prelude::*;

verus! {

broadcast use vstd::std_specs::hash::group_hash_axioms;

/// A stack of hash maps: lookups search from the innermost (last pushed)
/// map outwards, insertions go into the innermost map.
#[derive(Debug, Clone)]
pub struct StackedHashMap<K, V> {
    map_stack: Vec<HashMap<K, V>>,
}

/// The value that a lookup of `k` finds in `stack`: the one in the
/// innermost map that holds `k`, if any does.
pub open spec fn stack_lookup<K, V>(stack: Seq<Map<K, V>>, k: K) -> Option<V>
    decreases stack.len(),
{
    if stack.len() == 0 {
        None
    } else if stack.last().contains_key(k) {
        Some(stack.last()[k])
    } else {
        stack_lookup(stack.drop_last(), k)
    }
}

/// All maps of `stack` merged, inner maps taking precedence over outer ones.
pub open spec fn stack_flatten<K, V>(stack: Seq<Map<K, V>>) -> Map<K, V>
    decreases stack.len(),
{
    if stack.len() == 0 {
        Map::empty()
    } else {
        stack_flatten(stack.drop_last()).union_prefer_right(stack.last())
    }
}

impl<K, V> View for StackedHashMap<K, V> {
    type V = Seq<Map<K, V>>;

    closed spec fn view(&self) -> Seq<Map<K, V>> {
        self.map_stack@.map_values(|m: HashMap<K, V>| m@)
    }
}

/// `HashMap::extend`: every pair of `other` is inserted into `map`, a key
/// already present having its value replaced.
#[verifier::external_body]
fn extend_map<K: Eq + Hash, V>(map: &mut HashMap<K, V>, other: HashMap<K, V>)
    requires
        vstd::std_specs::hash::obeys_key_model::<K>(),
    ensures
        final(map)@ == old(map)@.union_prefer_right(other@),
{
    map.extend(other)
}

impl<K: Eq + Hash, V> StackedHashMap<K, V> {
    /// An empty stack, with no map on it.
    pub fn new() -> (r: Self)
        ensures
            r@ == Seq::<Map<K, V>>::empty(),
    {
        let r = StackedHashMap { map_stack: Vec::new() };
        assert(r@ =~= Seq::<Map<K, V>>::empty());
        r
    }

    /// A stack holding the single map `m`.
    pub fn from(m: HashMap<K, V>) -> (r: Self)
        ensures
            r@ == seq![m@],
    {
        let mut map_stack = Vec::new();
        map_stack.push(m);
        let r = StackedHashMap { map_stack };
        assert(r@ =~= seq![m@]);
        r
    }

    /// Pushes `m` as the new innermost map.
    pub fn push(&mut self, m: HashMap<K, V>)
        ensures
            final(self)@ == old(self)@.push(m@),
    {
        self.map_stack.push(m);
        assert(self@ =~= old(self)@.push(m@));
    }

    /// Removes and returns the innermost map, `None` when the stack is empty.
    pub fn pop(&mut self) -> (r: Option<HashMap<K, V>>)
        ensures
            old(self)@.len() == 0 ==> r is None && final(self)@ == old(self)@,
            old(self)@.len() > 0 ==> r is Some && r->0@ == old(self)@.last()
                && final(self)@ == old(self)@.drop_last(),
    {
        let r = self.map_stack.pop();
        proof {
            if old(self)@.len() > 0 {
                assert(self@ =~= old(self)@.drop_last());
            } else {
                assert(self@ =~= old(self)@);
            }
        }
        r
    }

    /// Inserts `k` with `v` into the innermost map and returns the value it
    /// replaced there.
    pub fn insert(&mut self, k: K, v: V) -> (r: Option<V>)
        requires
            old(self)@.len() > 0,
            vstd::std_specs::hash::obeys_key_model::<K>(),
        ensures
            final(self)@ == old(self)@.update(
                old(self)@.len() - 1,
                old(self)@.last().insert(k, v),
            ),
            r == (if old(self)@.last().contains_key(k) {
                Some(old(self)@.last()[k])
            } else {
                None
            }),
    {
        let last_index = self.map_stack.len() - 1;
        let mut top = self.map_stack.remove(last_index);
        let r = top.insert(k, v);
        self.map_stack.push(top);
        assert(self@ =~= old(self)@.update(
            old(self)@.len() - 1,
            old(self)@.last().insert(k, v),
        ));
        r
    }

    /// Looks `k` up from the innermost map outwards.
    pub fn get(&self, k: &K) -> (r: Option<&V>)
        requires
            vstd::std_specs::hash::obeys_key_model::<K>(),
        ensures
            match r {
                Some(v) => stack_lookup(self@, *k) == Some(*v),
                None => stack_lookup(self@, *k) is None,
            },
    {
        let mut i = self.map_stack.len();
        assert(self@.subrange(0, i as int) =~= self@);
        while i > 0
            invariant
                i <= self.map_stack.len(),
                vstd::std_specs::hash::obeys_key_model::<K>(),
                stack_lookup(self@, *k) == stack_lookup(self@.subrange(0, i as int), *k),
            decreases i,
        {
            let ghost prefix = self@.subrange(0, i as int);
            assert(prefix.drop_last() =~= self@.subrange(0, i - 1));
            assert(prefix.last() == self.map_stack@[i - 1]@);
            match self.map_stack[i - 1].get(k) {
                Some(v) => {
                    return Some(v);
                },
                None => {},
            }
            i = i - 1;
        }
        None
    }

    /// Whether the stack holds no map at all.
    pub fn stack_is_empty(&self) -> (r: bool)
        ensures
            r == (self@.len() == 0),
    {
        self.map_stack.len() == 0
    }

    /// All maps merged into one, inner maps taking precedence.
    pub fn into_map(self) -> (r: HashMap<K, V>)
        requires
            vstd::std_specs::hash::obeys_key_model::<K>(),
        ensures
            r@ == stack_flatten(self@),
    {
        let ghost stack = self@;
        let mut result: HashMap<K, V> = HashMap::new();
        let mut maps = self.map_stack;
        let mut rest: Vec<HashMap<K, V>> = Vec::new();
        // reverse so that the outermost map is taken first
        while maps.len() > 0
            invariant
                rest@.len() + maps@.len() == stack.len(),
                forall|j: int| 0 <= j < maps@.len() ==> #[trigger] maps@[j]@ == stack[j],
                forall|j: int|
                    0 <= j < rest@.len() ==> #[trigger] rest@[j]@ == stack[stack.len() - 1 - j],
            decreases maps.len(),
        {
            let m = maps.pop().unwrap();
            rest.push(m);
        }
        assert(result@ =~= stack_flatten(stack.subrange(0, 0)));
        while rest.len() > 0
            invariant
                vstd::std_specs::hash::obeys_key_model::<K>(),
                rest@.len() <= stack.len(),
                forall|j: int|
                    0 <= j < rest@.len() ==> #[trigger] rest@[j]@ == stack[stack.len() - 1 - j],
                result@ == stack_flatten(stack.subrange(0, stack.len() - rest@.len())),
            decreases rest.len(),
        {
            let ghost n = stack.len() - rest@.len();
            let m = rest.pop().unwrap();
            assert(m@ == stack[n]);
            extend_map(&mut result, m);
            assert(stack.subrange(0, n + 1).drop_last() =~= stack.subrange(0, n));
        }
        assert(stack.subrange(0, stack.len() as int) =~= stack);
        result
    }
}

impl<K: Eq + Hash, V> Default for StackedHashMap<K, V> {
    fn default() -> (r: Self)
        ensures
            r@ == Seq::<Map<K, V>>::empty(),
    {
        Self::new()
    }
}

/// A value inserted into the innermost map is what a lookup of its key
/// then finds.
pub proof fn law_lookup_after_insert<K, V>(stack: Seq<Map<K, V>>, k: K, v: V)
    requires
        stack.len() > 0,
    ensures
        stack_lookup(stack.update(stack.len() - 1, stack.last().insert(k, v)), k) == Some(v),
{
}

/// Inserting leaves the lookup of every other key as it was.
pub proof fn law_insert_keeps_other_keys<K, V>(stack: Seq<Map<K, V>>, k: K, v: V, other: K)
    requires
        stack.len() > 0,
        other != k,
    ensures
        stack_lookup(stack.update(stack.len() - 1, stack.last().insert(k, v)), other)
            == stack_lookup(stack, other),
{
    let s2 = stack.update(stack.len() - 1, stack.last().insert(k, v));
    assert(s2.drop_last() =~= stack.drop_last());
}

/// A pushed map shadows the maps below it; popping it restores every lookup.
pub proof fn law_push_shadows_and_pop_restores<K, V>(stack: Seq<Map<K, V>>, m: Map<K, V>, k: K)
    ensures
        stack_lookup(stack.push(m), k) == (if m.contains_key(k) {
            Some(m[k])
        } else {
            stack_lookup(stack, k)
        }),
        stack.push(m).drop_last() == stack,
{
    assert(stack.push(m).drop_last() =~= stack);
}

/// Merging the stack into one map keeps exactly what lookups find.
pub proof fn law_flatten_agrees_with_lookup<K, V>(stack: Seq<Map<K, V>>, k: K)
    ensures
        stack_flatten(stack).contains_key(k) <==> stack_lookup(stack, k) is Some,
        stack_flatten(stack).contains_key(k) ==> stack_lookup(stack, k) == Some(stack_flatten(stack)[k]),
    decreases stack.len(),
{
    if stack.len() > 0 {
        law_flatten_agrees_with_lookup(stack.drop_last(), k);
    }
}

/// The keys of the merged map are the keys of all the maps of the stack.
pub proof fn law_flatten_keys_are_all_keys<K, V>(stack: Seq<Map<K, V>>, k: K)
    ensures
        stack_flatten(stack).contains_key(k) <==> exists|i: int| 0 <= i < stack.len() && #[trigger] stack[i].contains_key(k),
    decreases stack.len(),
{
    if stack.len() > 0 {
        let rest = stack.drop_last();
        law_flatten_keys_are_all_keys(rest, k);
        if exists|i: int| 0 <= i < stack.len() && #[trigger] stack[i].contains_key(k) {
            let i = choose|i: int| 0 <= i < stack.len() && #[trigger] stack[i].contains_key(k);
            if i < stack.len() - 1 {
                assert(rest[i] == stack[i]);
            }
        }
        if exists|i: int| 0 <= i < rest.len() && #[trigger] rest[i].contains_key(k) {
            let i = choose|i: int| 0 <= i < rest.len() && #[trigger] rest[i].contains_key(k);
            assert(stack[i] == rest[i]);
        }
        if stack.last().contains_key(k) {
            assert(stack[stack.len() - 1].contains_key(k));
        }
    }
}

} // verus!
