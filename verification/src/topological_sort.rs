use std::collections::{HashMap, HashSet};
use std::hash::Hash;
use vstd::prelude::*;

verus! {

broadcast use vstd::std_specs::hash::group_hash_axioms;

/// The error returned when the dependencies cannot be ordered because some
/// items depend on each other in a cycle.
#[derive(Debug, Clone, Hash, PartialEq, Eq, Structural)]
pub struct CircularDependencyError;

impl CircularDependencyError {
    pub fn new() -> (r: Self)
        ensures
            r == CircularDependencyError,
    {
        CircularDependencyError
    }
}

/// The dependency relation that a map of dependency sets describes.
pub open spec fn dependency_graph<T>(data: Map<T, HashSet<T>>) -> Map<T, Set<T>> {
    data.map_values(|s: HashSet<T>| s@)
}

/// What `x` depends on: its listed dependencies other than itself; an item
/// that only occurs as a dependency depends on nothing.
pub open spec fn deps_of<T>(g: Map<T, Set<T>>, x: T) -> Set<T> {
    if g.contains_key(x) {
        g[x].remove(x)
    } else {
        Set::empty()
    }
}

/// Every item that occurs in `g`, as a key or as a dependency.
pub open spec fn all_items<T>(g: Map<T, Set<T>>) -> Set<T> {
    Set::new(|x: T| g.contains_key(x) || exists|k: T| g.contains_key(k) && #[trigger] g[k].contains(x))
}

/// `x` depends on nothing that is still in `r`.
pub open spec fn is_ready<T>(g: Map<T, Set<T>>, r: Set<T>, x: T) -> bool {
    forall|d: T| #[trigger] deps_of(g, x).contains(d) ==> !r.contains(d)
}

/// The items of `r` whose dependencies all lie outside `r`.
pub open spec fn ready<T>(g: Map<T, Set<T>>, r: Set<T>) -> Set<T> {
    r.filter(|x: T| is_ready(g, r, x))
}

/// The items left after `k` rounds of removing all ready items.
pub open spec fn remaining_after<T>(g: Map<T, Set<T>>, k: nat) -> Set<T>
    decreases k,
{
    if k == 0 {
        all_items(g)
    } else {
        let r = remaining_after(g, (k - 1) as nat);
        r.difference(ready(g, r))
    }
}

/// The items removed in round `k`.
pub open spec fn layer<T>(g: Map<T, Set<T>>, k: nat) -> Set<T> {
    ready(g, remaining_after(g, k))
}

/// Round `n` is the first one that removes nothing.
pub open spec fn stops_at<T>(g: Map<T, Set<T>>, n: nat) -> bool {
    &&& layer(g, n).is_empty()
    &&& forall|k: nat| k < n ==> !(#[trigger] layer(g, k)).is_empty()
}

/// The outcome that `topological_sort` gives on the graph `g`.
pub open spec fn sorted_as<T>(g: Map<T, Set<T>>, r: Result<Seq<Set<T>>, CircularDependencyError>) -> bool {
    match r {
        Ok(layers) => {
            &&& stops_at(g, layers.len())
            &&& remaining_after(g, layers.len()).is_empty()
            &&& forall|i: int| 0 <= i < layers.len() ==> #[trigger] layers[i] == layer(g, i as nat)
        },
        Err(_) => exists|n: nat| stops_at(g, n) && !remaining_after(g, n).is_empty(),
    }
}

proof fn lemma_push_to_set<A>(s: Seq<A>, x: A)
    ensures
        s.push(x).to_set() == s.to_set().insert(x),
{
    assert forall|y: A| #[trigger] s.push(x).to_set().contains(y) == s.to_set().insert(x).contains(y) by {
        if s.push(x).contains(y) && y != x {
            let i = choose|i: int| 0 <= i < s.push(x).len() && s.push(x)[i] == y;
            assert(s[i] == y);
        }
        if s.contains(y) {
            let i = choose|i: int| 0 <= i < s.len() && s[i] == y;
            assert(s.push(x)[i] == y);
        }
        if y == x {
            assert(s.push(x)[s.len() as int] == y);
        }
    }
    assert(s.push(x).to_set() =~= s.to_set().insert(x));
}

fn keys_vec<T: Copy + Eq + Hash, V>(m: &HashMap<T, V>) -> (r: Vec<T>)
    requires
        vstd::std_specs::hash::obeys_key_model::<T>(),
    ensures
        r@.to_set() == m@.dom(),
{
    let mut r: Vec<T> = Vec::new();
    for k in it: m.keys()
        invariant
            r@ == it.seq().take(it.index() as int).unref(),
            it.seq().unref().to_set() == m@.dom(),
            it.index() == it.seq().len() ==> r@.to_set() == m@.dom(),
    {
        assert(it.seq().unref().to_set() == m@.dom());
        r.push(*k);
        proof {
            assert(it.seq().take(it.index() + 1).drop_last() =~= it.seq().take(it.index() as int));
            assert(it.seq().take(it.seq().len() as int) =~= it.seq());
        }
    }
    r
}

fn set_vec<T: Copy + Eq + Hash>(s: &HashSet<T>) -> (r: Vec<T>)
    requires
        vstd::std_specs::hash::obeys_key_model::<T>(),
    ensures
        r@.to_set() == s@,
{
    let mut r: Vec<T> = Vec::new();
    for k in it: s.iter()
        invariant
            r@ == it.seq().take(it.index() as int).unref(),
            it.seq().unref().to_set() == s@,
            it.index() == it.seq().len() ==> r@.to_set() == s@,
    {
        assert(it.seq().unref().to_set() == s@);
        r.push(*k);
        proof {
            assert(it.seq().take(it.index() + 1).drop_last() =~= it.seq().take(it.index() as int));
            assert(it.seq().take(it.seq().len() as int) =~= it.seq());
        }
    }
    r
}


/// Whether `x` is ready while the items of `rem` are still left; `rem` is
/// used as scratch space and given back unchanged.
fn check_ready<T: Copy + Eq + Hash>(data: &HashMap<T, HashSet<T>>, x: T, rem: &mut HashSet<T>) -> (r: bool)
    requires
        vstd::std_specs::hash::obeys_key_model::<T>(),
    ensures
        final(rem)@ == old(rem)@,
        r == is_ready(dependency_graph(data@), old(rem)@, x),
{
    let ghost g = dependency_graph(data@);
    let ghost rr = rem@;
    match data.get(&x) {
        None => {
            assert(deps_of(g, x) =~= Set::<T>::empty());
            true
        },
        Some(deps) => {
            assert(g[x] == deps@);
            let had = rem.remove(&x);
            let dv = set_vec(deps);
            let mut ok = true;
            let mut j: usize = 0;
            while j < dv.len()
                invariant
                    j <= dv@.len(),
                    dv@.to_set() == deps@,
                    rem@ == rr.remove(x),
                    vstd::std_specs::hash::obeys_key_model::<T>(),
                    ok <==> (forall|i: int| 0 <= i < j ==> !rem@.contains(#[trigger] dv@[i])),
                decreases dv@.len() - j,
            {
                if rem.contains(&dv[j]) {
                    ok = false;
                }
                j = j + 1;
            }
            proof {
                if ok {
                    assert forall|d: T| #[trigger] deps_of(g, x).contains(d) implies !rr.contains(d) by {
                        assert(dv@.to_set().contains(d));
                        let i = choose|i: int| 0 <= i < dv@.len() && dv@[i] == d;
                        assert(!rem@.contains(dv@[i]));
                    }
                } else {
                    let i = choose|i: int| 0 <= i < dv@.len() && rem@.contains(#[trigger] dv@[i]);
                    assert(dv@.to_set().contains(dv@[i]));
                    assert(deps_of(g, x).contains(dv@[i]));
                }
            }
            if had {
                rem.insert(x);
                assert(rem@ =~= rr);
            } else {
                assert(rem@ =~= rr);
            }
            ok
        },
    }
}


/// Every item of the graph, once each, with a set holding the same items.
fn collect_items<T: Copy + Eq + Hash>(data: &HashMap<T, HashSet<T>>) -> (r: (Vec<T>, HashSet<T>))
    requires
        vstd::std_specs::hash::obeys_key_model::<T>(),
    ensures
        r.1@ == all_items(dependency_graph(data@)),
        r.0@.to_set() == r.1@,
{
    let ghost g = dependency_graph(data@);
    let keys = keys_vec(data);
    let mut set: HashSet<T> = HashSet::new();
    let mut items: Vec<T> = Vec::new();
    let mut i: usize = 0;
    while i < keys.len()
        invariant
            i <= keys@.len(),
            vstd::std_specs::hash::obeys_key_model::<T>(),
            items@.to_set() == set@,
            set@ == keys@.take(i as int).to_set(),
        decreases keys@.len() - i,
    {
        let k = keys[i];
        let ghost old_items = items@;
        if set.insert(k) {
            items.push(k);
        }
        assert(keys@.take(i + 1) =~= keys@.take(i as int).push(k));
        proof {
            lemma_push_to_set(keys@.take(i as int), k);
            lemma_push_to_set(old_items, k);
        }
        assert(set@ =~= keys@.take(i + 1).to_set());
        assert(items@.to_set() =~= set@);
        i = i + 1;
    }
    assert(keys@.take(keys@.len() as int) =~= keys@);
    assert(set@ == data@.dom());
    let mut i: usize = 0;
    while i < keys.len()
        invariant
            i <= keys@.len(),
            vstd::std_specs::hash::obeys_key_model::<T>(),
            keys@.to_set() == data@.dom(),
            g == dependency_graph(data@),
            items@.to_set() == set@,
            forall|x: T| #[trigger] set@.contains(x) <==> (g.contains_key(x)
                || exists|j: int| 0 <= j < i && #[trigger] g[keys@[j]].contains(x)),
        decreases keys@.len() - i,
    {
        let k = keys[i];
        assert(keys@.to_set().contains(k));
        let deps = data.get(&k).unwrap();
        assert(g[k] == deps@);
        let dv = set_vec(deps);
        let ghost before = set@;
        let mut j: usize = 0;
        while j < dv.len()
            invariant
                j <= dv@.len(),
                vstd::std_specs::hash::obeys_key_model::<T>(),
                items@.to_set() == set@,
                set@ == before.union(dv@.take(j as int).to_set()),
            decreases dv@.len() - j,
        {
            let d = dv[j];
            let ghost old_items = items@;
            proof {
                lemma_push_to_set(dv@.take(j as int), d);
                lemma_push_to_set(old_items, d);
            }
            if set.insert(d) {
                items.push(d);
            }
            assert(dv@.take(j + 1) =~= dv@.take(j as int).push(d));
            assert(set@ =~= before.union(dv@.take(j + 1).to_set()));
            assert(items@.to_set() =~= set@);
            j = j + 1;
        }
        assert(dv@.take(dv@.len() as int) =~= dv@);
        assert forall|x: T| #[trigger] set@.contains(x) <==> (g.contains_key(x)
            || exists|j: int| 0 <= j < i + 1 && #[trigger] g[keys@[j]].contains(x)) by {
            if set@.contains(x) && !before.contains(x) {
                assert(g[keys@[i as int]].contains(x));
            }
            if exists|j: int| 0 <= j < i + 1 && #[trigger] g[keys@[j]].contains(x) {
                let j = choose|j: int| 0 <= j < i + 1 && #[trigger] g[keys@[j]].contains(x);
                if j == i {
                    assert(dv@.to_set().contains(x));
                }
            }
        }
        i = i + 1;
    }
    assert forall|x: T| #[trigger] set@.contains(x) == all_items(g).contains(x) by {
        if exists|k: T| g.contains_key(k) && #[trigger] g[k].contains(x) {
            let k = choose|k: T| g.contains_key(k) && #[trigger] g[k].contains(x);
            assert(keys@.to_set().contains(k));
            let j = choose|j: int| 0 <= j < keys@.len() && keys@[j] == k;
            assert(g[keys@[j]].contains(x));
        }
    }
    assert(set@ =~= all_items(g));
    (items, set)
}


/// Orders the items of `data` (a map from each item to the items it depends
/// on) into layers: every item comes after everything it depends on, and
/// each layer holds exactly the items whose dependencies all lie in earlier
/// layers. Self-dependencies are ignored. Fails when some items depend on
/// each other in a cycle.
pub fn topological_sort<T: Eq + Hash + Copy>(data: HashMap<T, HashSet<T>>) -> (r: Result<
    Vec<HashSet<T>>,
    CircularDependencyError,
>)
    requires
        vstd::std_specs::hash::obeys_key_model::<T>(),
    ensures
        sorted_as(
            dependency_graph(data@),
            match r {
                Ok(v) => Ok(v@.map_values(|s: HashSet<T>| s@)),
                Err(e) => Err(e),
            },
        ),
{
    let ghost g = dependency_graph(data@);
    let (items, rem_set) = collect_items(&data);
    let mut remaining = items;
    let mut rem_set = rem_set;
    let mut result: Vec<HashSet<T>> = Vec::new();
    loop
        invariant
            vstd::std_specs::hash::obeys_key_model::<T>(),
            g == dependency_graph(data@),
            remaining@.to_set() == rem_set@,
            rem_set@ == remaining_after(g, result@.len() as nat),
            forall|i: int|
                0 <= i < result@.len() ==> #[trigger] result@[i]@ == layer(g, i as nat)
                    && !layer(g, i as nat).is_empty(),
        decreases remaining@.len(),
    {
        let ghost rr = rem_set@;
        let ghost k = result@.len() as nat;
        let mut layer_set: HashSet<T> = HashSet::new();
        let mut layer_vec: Vec<T> = Vec::new();
        let mut next: Vec<T> = Vec::new();
        let mut i: usize = 0;
        while i < remaining.len()
            invariant
                i <= remaining@.len(),
                vstd::std_specs::hash::obeys_key_model::<T>(),
                g == dependency_graph(data@),
                rem_set@ == rr,
                layer_set@ == layer_vec@.to_set(),
                forall|x: T| #[trigger] layer_set@.contains(x) <==> (remaining@.take(i as int).contains(x)
                    && is_ready(g, rr, x)),
                forall|x: T| #[trigger] next@.to_set().contains(x) <==> (remaining@.take(i as int).contains(x)
                    && !is_ready(g, rr, x)),
                next@.len() + layer_vec@.len() == i,
            decreases remaining@.len() - i,
        {
            let x = remaining[i];
            let ok = check_ready(&data, x, &mut rem_set);
            let ghost old_layer = layer_vec@;
            let ghost old_next = next@;
            proof {
                lemma_push_to_set(old_layer, x);
                lemma_push_to_set(old_next, x);
            }
            assert(remaining@.take(i + 1) =~= remaining@.take(i as int).push(x));
            proof {
                lemma_push_to_set(remaining@.take(i as int), x);
            }
            if ok {
                layer_set.insert(x);
                layer_vec.push(x);
            } else {
                next.push(x);
            }
            assert forall|y: T| #[trigger] layer_set@.contains(y) <==> (remaining@.take(i + 1).contains(y)
                && is_ready(g, rr, y)) by {
                assert(remaining@.take(i + 1).to_set().contains(y) == remaining@.take(i + 1).contains(y));
                assert(remaining@.take(i as int).to_set().contains(y) == remaining@.take(i as int).contains(y));
            }
            assert forall|y: T| #[trigger] next@.to_set().contains(y) <==> (remaining@.take(i + 1).contains(y)
                && !is_ready(g, rr, y)) by {
                assert(remaining@.take(i + 1).to_set().contains(y) == remaining@.take(i + 1).contains(y));
                assert(remaining@.take(i as int).to_set().contains(y) == remaining@.take(i as int).contains(y));
            }
            i = i + 1;
        }
        assert(remaining@.take(remaining@.len() as int) =~= remaining@);
        assert(layer_set@ =~= layer(g, k));
        if layer_vec.len() == 0 {
            proof {
                assert(layer(g, k).is_empty());
                assert forall|k2: nat| k2 < k implies !(#[trigger] layer(g, k2)).is_empty() by {
                    assert(result@[k2 as int]@ == layer(g, k2));
                }
                assert(stops_at(g, k));
            }
            if remaining.len() == 0 {
                proof {
                    assert(rr =~= Set::<T>::empty());
                    assert(result@.map_values(|s: HashSet<T>| s@).len() == k);
                }
                return Ok(result);
            } else {
                proof {
                    assert(rr.contains(remaining@[0]));
                }
                return Err(CircularDependencyError::new());
            }
        }
        let mut j: usize = 0;
        while j < layer_vec.len()
            invariant
                j <= layer_vec@.len(),
                vstd::std_specs::hash::obeys_key_model::<T>(),
                rem_set@ == rr.difference(layer_vec@.take(j as int).to_set()),
            decreases layer_vec@.len() - j,
        {
            let ghost before = rem_set@;
            rem_set.remove(&layer_vec[j]);
            proof {
                lemma_push_to_set(layer_vec@.take(j as int), layer_vec@[j as int]);
            }
            assert(layer_vec@.take(j + 1) =~= layer_vec@.take(j as int).push(layer_vec@[j as int]));
            assert(rem_set@ =~= rr.difference(layer_vec@.take(j + 1).to_set()));
            j = j + 1;
        }
        assert(layer_vec@.take(layer_vec@.len() as int) =~= layer_vec@);
        assert(rem_set@ =~= remaining_after(g, k + 1));
        assert(next@.to_set() =~= rem_set@);
        assert(layer_set@.contains(layer_vec@[0]));
        remaining = next;
        let ghost old_result = result@;
        result.push(layer_set);
        assert forall|i: int|
            0 <= i < result@.len() implies #[trigger] result@[i]@ == layer(g, i as nat)
                && !layer(g, i as nat).is_empty() by {
            if i < old_result.len() {
                assert(result@[i] == old_result[i]);
            } else {
                assert(result@[i]@ == layer(g, k));
                assert(layer(g, k).contains(layer_vec@[0]));
            }
        }
    }
}


/// The graph has a set of items, none of them free to go first: every item
/// of the set depends on another item of the set. A finite graph has such a
/// set exactly when it has a dependency cycle.
pub open spec fn has_dependency_cycle<T>(g: Map<T, Set<T>>) -> bool {
    exists|s: Set<T>|
        {
            &&& !s.is_empty()
            &&& s.subset_of(all_items(g))
            &&& forall|x: T| #[trigger] s.contains(x) ==> exists|d: T| #[trigger] deps_of(g, x).contains(d) && s.contains(d)
        }
}

/// Rounds only ever remove items: what is left after `i` rounds is part of
/// what is left after `j <= i` rounds, and all of it occurs in the graph.
proof fn lemma_remaining_shrinks<T>(g: Map<T, Set<T>>, j: nat, i: nat)
    requires
        j <= i,
    ensures
        remaining_after(g, i).subset_of(remaining_after(g, j)),
        remaining_after(g, i).subset_of(all_items(g)),
    decreases i,
{
    if i > j {
        lemma_remaining_shrinks(g, j, (i - 1) as nat);
    } else if i > 0 {
        lemma_remaining_shrinks(g, 0, (i - 1) as nat);
    }
}

/// An item of the graph is gone after `k` rounds exactly when one of the
/// first `k` rounds removed it.
proof fn lemma_removed_in_some_layer<T>(g: Map<T, Set<T>>, k: nat, x: T)
    ensures
        (all_items(g).contains(x) && !remaining_after(g, k).contains(x)) <==> exists|j: nat|
            j < k && #[trigger] layer(g, j).contains(x),
    decreases k,
{
    if k > 0 {
        lemma_removed_in_some_layer(g, (k - 1) as nat, x);
        lemma_remaining_shrinks(g, 0, (k - 1) as nat);
        if layer(g, (k - 1) as nat).contains(x) {
            assert(remaining_after(g, (k - 1) as nat).contains(x));
        }
        if exists|j: nat| j < k && #[trigger] layer(g, j).contains(x) {
            let j = choose|j: nat| j < k && #[trigger] layer(g, j).contains(x);
            if j < k - 1 {
                assert(exists|j2: nat| j2 < k - 1 && #[trigger] layer(g, j2).contains(x));
            }
        }
    }
}

/// A layer removes items that are still left: no later round can remove them again.
proof fn lemma_layers_disjoint<T>(g: Map<T, Set<T>>, i: nat, j: nat, x: T)
    requires
        j < i,
        layer(g, j).contains(x),
    ensures
        !layer(g, i).contains(x),
{
    lemma_remaining_shrinks(g, j + 1, i);
}

/// A successful sort puts every item of the graph, and nothing else, into
/// exactly one layer.
pub proof fn law_layers_partition_items<T>(g: Map<T, Set<T>>, layers: Seq<Set<T>>, x: T)
    requires
        sorted_as(g, Ok(layers)),
    ensures
        all_items(g).contains(x) <==> exists|i: int| 0 <= i < layers.len() && #[trigger] layers[i].contains(x),
        forall|i: int, j: int|
            0 <= i < layers.len() && 0 <= j < layers.len() && #[trigger] layers[i].contains(x)
                && #[trigger] layers[j].contains(x) ==> i == j,
{
    let n = layers.len();
    lemma_removed_in_some_layer(g, n, x);
    if all_items(g).contains(x) {
        let j = choose|j: nat| j < n && #[trigger] layer(g, j).contains(x);
        assert(layers[j as int] == layer(g, j));
    }
    if exists|i: int| 0 <= i < layers.len() && #[trigger] layers[i].contains(x) {
        let i = choose|i: int| 0 <= i < layers.len() && #[trigger] layers[i].contains(x);
        assert(layer(g, i as nat).contains(x));
    }
    assert forall|i: int, j: int|
        0 <= i < layers.len() && 0 <= j < layers.len() && #[trigger] layers[i].contains(x)
            && #[trigger] layers[j].contains(x) implies i == j by {
        assert(layers[i] == layer(g, i as nat));
        assert(layers[j] == layer(g, j as nat));
        if i < j {
            lemma_layers_disjoint(g, j as nat, i as nat, x);
        } else if j < i {
            lemma_layers_disjoint(g, i as nat, j as nat, x);
        }
    }
}

/// In a successful sort, everything an item depends on lies in an earlier layer.
pub proof fn law_dependencies_come_first<T>(g: Map<T, Set<T>>, layers: Seq<Set<T>>, i: int, x: T, d: T)
    requires
        sorted_as(g, Ok(layers)),
        0 <= i < layers.len(),
        layers[i].contains(x),
        deps_of(g, x).contains(d),
    ensures
        exists|j: int| 0 <= j < i && #[trigger] layers[j].contains(d),
{
    assert(layers[i] == layer(g, i as nat));
    assert(!remaining_after(g, i as nat).contains(d));
    lemma_remaining_shrinks(g, 0, i as nat);
    assert(g[x].contains(d));
    assert(all_items(g).contains(d));
    lemma_removed_in_some_layer(g, i as nat, d);
    let j = choose|j: nat| j < i && #[trigger] layer(g, j).contains(d);
    assert(layers[j as int] == layer(g, j));
}

/// The sort fails exactly when the graph has a dependency cycle.
pub proof fn law_fails_iff_cycle<T>(g: Map<T, Set<T>>, r: Result<Seq<Set<T>>, CircularDependencyError>)
    requires
        sorted_as(g, r),
    ensures
        r is Err <==> has_dependency_cycle(g),
{
    match r {
        Ok(layers) => {
            if has_dependency_cycle(g) {
                let s = choose|s: Set<T>|
                    {
                        &&& !s.is_empty()
                        &&& s.subset_of(all_items(g))
                        &&& forall|x: T| #[trigger] s.contains(x) ==> exists|d: T| #[trigger] deps_of(g, x).contains(d) && s.contains(d)
                    };
                lemma_cycle_never_removed(g, layers, s, layers.len() as int);
                let x = s.choose();
                law_layers_partition_items(g, layers, x);
                let i = choose|i: int| 0 <= i < layers.len() && #[trigger] layers[i].contains(x);
                assert(false);
            }
        },
        Err(_) => {
            let n = choose|n: nat| stops_at(g, n) && !remaining_after(g, n).is_empty();
            let s = remaining_after(g, n);
            lemma_remaining_shrinks(g, 0, n);
            assert forall|x: T| #[trigger] s.contains(x) implies exists|d: T| #[trigger] deps_of(g, x).contains(d) && s.contains(d) by {
                assert(!layer(g, n).contains(x));
            }
            assert(has_dependency_cycle(g));
        },
    }
}

/// No item of a set closed under dependencies ever lands in one of the first `k` layers.
proof fn lemma_cycle_never_removed<T>(g: Map<T, Set<T>>, layers: Seq<Set<T>>, s: Set<T>, k: int)
    requires
        sorted_as(g, Ok(layers)),
        0 <= k <= layers.len(),
        forall|x: T| #[trigger] s.contains(x) ==> exists|d: T| #[trigger] deps_of(g, x).contains(d) && s.contains(d),
    ensures
        forall|i: int, x: T| 0 <= i < k && s.contains(x) ==> !(#[trigger] layers[i].contains(x)),
    decreases k,
{
    if k > 0 {
        lemma_cycle_never_removed(g, layers, s, k - 1);
        assert forall|i: int, x: T| 0 <= i < k && s.contains(x) implies !(#[trigger] layers[i].contains(x)) by {
            if i == k - 1 && layers[i].contains(x) {
                let d = choose|d: T| #[trigger] deps_of(g, x).contains(d) && s.contains(d);
                law_dependencies_come_first(g, layers, i, x, d);
                let j = choose|j: int| 0 <= j < i && #[trigger] layers[j].contains(d);
                assert(!layers[j].contains(d));
            }
        }
    }
}

/// In a successful sort every item sits at the earliest layer its
/// dependencies allow: the first layer holds exactly the items that depend
/// on nothing, and an item of any later layer depends on an item of the
/// layer just before it.
pub proof fn law_each_item_at_earliest_layer<T>(g: Map<T, Set<T>>, layers: Seq<Set<T>>, x: T)
    requires
        sorted_as(g, Ok(layers)),
    ensures
        (layers.len() > 0 && layers[0].contains(x)) <==> (all_items(g).contains(x)
            && forall|d: T| !(#[trigger] deps_of(g, x).contains(d))),
        forall|i: int| 0 < i < layers.len() && #[trigger] layers[i].contains(x)
            ==> exists|d: T| #[trigger] deps_of(g, x).contains(d) && layers[i - 1].contains(d),
{
    if layers.len() > 0 && layers[0].contains(x) {
        assert(layers[0] == layer(g, 0));
        assert forall|d: T| !(#[trigger] deps_of(g, x).contains(d)) by {
            if deps_of(g, x).contains(d) {
                assert(g[x].contains(d));
                assert(all_items(g).contains(d));
            }
        }
    }
    if all_items(g).contains(x) && forall|d: T| !(#[trigger] deps_of(g, x).contains(d)) {
        assert(remaining_after(g, 0).contains(x));
        if layers.len() == 0 {
            assert(remaining_after(g, 0).is_empty());
            assert(false);
        }
        assert(is_ready(g, remaining_after(g, 0), x));
        assert(layer(g, 0).contains(x));
        assert(layers[0] == layer(g, 0));
    }
    assert forall|i: int| 0 < i < layers.len() && #[trigger] layers[i].contains(x)
        implies exists|d: T| #[trigger] deps_of(g, x).contains(d) && layers[i - 1].contains(d) by {
        let k = (i - 1) as nat;
        let prev = remaining_after(g, k);
        assert(layers[i] == layer(g, i as nat));
        assert(layers[i - 1] == layer(g, k));
        assert(remaining_after(g, i as nat) == prev.difference(ready(g, prev)));
        assert(remaining_after(g, i as nat).contains(x));
        assert(prev.contains(x));
        assert(!ready(g, prev).contains(x));
        assert(!is_ready(g, prev, x));
        let d = choose|d: T| #[trigger] deps_of(g, x).contains(d) && prev.contains(d);
        assert(is_ready(g, remaining_after(g, i as nat), x));
        assert(!remaining_after(g, i as nat).contains(d));
        assert(ready(g, prev).contains(d));
    }
}

} // verus!
