use crate::typed_decl::TypedDecl;
use crate::typed_use::TypedUse;
use std::cmp::Ordering;
use vstd::prelude::*;

verus! {

/// A source file, or a directory of source sets.
#[derive(Debug, PartialEq, Eq)]
pub enum TypedSourceSet {
    File(TypedFile),
    Dir { name: String, items: Vec<TypedSourceSet> },
}

impl TypedSourceSet {
    /// The name of the file or the directory.
    pub fn name(&self) -> (r: &str)
        ensures
            r@ == match *self {
                TypedSourceSet::File(f) => f.name@,
                TypedSourceSet::Dir { name, .. } => name@,
            },
    {
        match self {
            TypedSourceSet::File(f) => f.name.as_str(),
            TypedSourceSet::Dir { name, items: _ } => name.as_str(),
        }
    }
}

#[derive(Debug, PartialEq, Eq)]
pub struct TypedFile {
    pub name: String,
    pub uses: Vec<TypedUse>,
    pub body: Vec<TypedDecl>,
}

/// The order of two texts: character by character, a proper prefix before
/// the longer text.
pub open spec fn text_order(a: Seq<char>, b: Seq<char>) -> Ordering
    decreases a.len(),
{
    if a.len() == 0 {
        if b.len() == 0 {
            Ordering::Equal
        } else {
            Ordering::Less
        }
    } else if b.len() == 0 {
        Ordering::Greater
    } else if a[0] < b[0] {
        Ordering::Less
    } else if a[0] > b[0] {
        Ordering::Greater
    } else {
        text_order(a.drop_first(), b.drop_first())
    }
}

/// A position in a text, as an integer.
pub open spec fn position(k: usize) -> int {
    k as int
}

/// How many characters `a` and `b` have in common at their start.
fn common_prefix_len(a: &str, b: &str) -> (r: usize)
    ensures
        r <= a@.len(),
        r <= b@.len(),
        forall|j: int| 0 <= j < r ==> a@[j] == b@[j],
        r < a@.len() && r < b@.len() ==> a@[r as int] != b@[r as int],
{
    let n = a.unicode_len();
    let m = b.unicode_len();
    let mut i: usize = 0;
    while i < n && i < m
        invariant
            n == a@.len(),
            m == b@.len(),
            i <= n,
            i <= m,
            forall|j: int| 0 <= j < i ==> a@[j] == b@[j],
        decreases n - i,
    {
        if a.get_char(i) != b.get_char(i) {
            return i;
        }
        i = i + 1;
    }
    i
}

/// Two texts that agree on their first `k` characters are ordered by what
/// follows: the end of one, or the first characters that differ.
pub proof fn lemma_text_order_at(a: Seq<char>, b: Seq<char>, k: int)
    requires
        0 <= k <= a.len(),
        k <= b.len(),
        forall|j: int| 0 <= j < k ==> a[j] == b[j],
        k < a.len() && k < b.len() ==> a[k] != b[k],
    ensures
        text_order(a, b) == (if k == a.len() {
            if k == b.len() {
                Ordering::Equal
            } else {
                Ordering::Less
            }
        } else if k == b.len() {
            Ordering::Greater
        } else if a[k] < b[k] {
            Ordering::Less
        } else {
            Ordering::Greater
        }),
    decreases k,
{
    if k > 0 {
        let a1 = a.drop_first();
        let b1 = b.drop_first();
        assert forall|j: int| 0 <= j < k - 1 implies a1[j] == b1[j] by {
            assert(a[j + 1] == b[j + 1]);
        }
        lemma_text_order_at(a1, b1, k - 1);
        assert(a[0] == b[0]);
    }
}

/// Swapping two texts swaps their order, and two texts are ordered equal
/// exactly when they are the same text.
pub proof fn law_text_order_antisymmetric(a: Seq<char>, b: Seq<char>)
    ensures
        text_order(a, b) == Ordering::Less <==> text_order(b, a) == Ordering::Greater,
        text_order(a, b) == Ordering::Equal <==> a == b,
    decreases a.len(),
{
    if a.len() > 0 && b.len() > 0 && a[0] == b[0] {
        law_text_order_antisymmetric(a.drop_first(), b.drop_first());
        if a.drop_first() == b.drop_first() {
            assert(a =~= seq![a[0]] + a.drop_first());
            assert(b =~= seq![b[0]] + b.drop_first());
        }
        if a == b {
            assert(a.drop_first() =~= b.drop_first());
        }
    } else if a.len() == 0 && b.len() == 0 {
        assert(a =~= b);
    } else if a.len() > 0 && b.len() > 0 {
        assert(a[0] != b[0]);
    }
}

/// The order of texts is transitive.
pub proof fn law_text_order_transitive(a: Seq<char>, b: Seq<char>, c: Seq<char>)
    requires
        text_order(a, b) == Ordering::Less,
        text_order(b, c) == Ordering::Less,
    ensures
        text_order(a, c) == Ordering::Less,
    decreases a.len(),
{
    if a.len() > 0 && b.len() > 0 && c.len() > 0 && a[0] == b[0] && b[0] == c[0] {
        law_text_order_transitive(a.drop_first(), b.drop_first(), c.drop_first());
    }
}

/// Compares two texts character by character.
pub fn compare_text(a: &str, b: &str) -> (r: Ordering)
    ensures
        r == text_order(a@, b@),
{
    let k = common_prefix_len(a, b);
    proof {
        lemma_text_order_at(a@, b@, position(k));
    }
    let n = a.unicode_len();
    let m = b.unicode_len();
    if k == n {
        if k == m {
            Ordering::Equal
        } else {
            Ordering::Less
        }
    } else if k == m {
        Ordering::Greater
    } else if a.get_char(k) < b.get_char(k) {
        Ordering::Less
    } else {
        Ordering::Greater
    }
}

impl TypedSourceSet {
    /// Orders source sets by their names.
    pub fn cmp(&self, other: &Self) -> (r: Ordering)
        ensures
            r == text_order(source_set_name(*self), source_set_name(*other)),
    {
        compare_text(self.name(), other.name())
    }

    /// Orders source sets by their names; any two are ordered.
    pub fn partial_cmp(&self, other: &Self) -> (r: Option<Ordering>)
        ensures
            r == Some(text_order(source_set_name(*self), source_set_name(*other))),
    {
        Some(self.cmp(other))
    }
}

/// The name of a file or a directory.
pub open spec fn source_set_name(s: TypedSourceSet) -> Seq<char> {
    match s {
        TypedSourceSet::File(f) => f.name@,
        TypedSourceSet::Dir { name, .. } => name@,
    }
}

impl TypedFile {
    /// Orders files by their names.
    pub fn cmp(&self, other: &Self) -> (r: Ordering)
        ensures
            r == text_order(self.name@, other.name@),
    {
        compare_text(self.name.as_str(), other.name.as_str())
    }

    /// Orders files by their names; any two are ordered.
    pub fn partial_cmp(&self, other: &Self) -> (r: Option<Ordering>)
        ensures
            r == Some(text_order(self.name@, other.name@)),
    {
        Some(self.cmp(other))
    }
}

} // verus!
