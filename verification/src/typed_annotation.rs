use crate::text::{str_eq, string_of};
use vstd::prelude::*;

verus! {

/// The annotations attached to a declaration.
#[derive(Debug, PartialEq, Eq, Clone)]
pub struct TypedAnnotations {
    pub annotations: Vec<String>,
}

impl Default for TypedAnnotations {
    fn default() -> (r: Self)
        ensures
            r.annotations@.len() == 0,
    {
        TypedAnnotations { annotations: Vec::new() }
    }
}

impl TypedAnnotations {
    /// The annotations named `annotations`, in that order.
    pub fn from(annotations: Vec<&str>) -> (r: Self)
        ensures
            r.annotations@.len() == annotations@.len(),
            forall|i: int| 0 <= i < annotations@.len() ==> #[trigger] r.annotations@[i]@ == annotations@[i]@,
    {
        let mut names: Vec<String> = Vec::new();
        let mut i: usize = 0;
        while i < annotations.len()
            invariant
                i <= annotations@.len(),
                names@.len() == i,
                forall|j: int| 0 <= j < i ==> #[trigger] names@[j]@ == annotations@[j]@,
            decreases annotations@.len() - i,
        {
            names.push(string_of(annotations[i]));
            i = i + 1;
        }
        TypedAnnotations { annotations: names }
    }

    /// Whether `a` is among the annotations.
    pub fn has_annotate(&self, a: &str) -> (r: bool)
        ensures
            r == exists|i: int| 0 <= i < self.annotations@.len() && #[trigger] self.annotations@[i]@ == a@,
    {
        let mut i: usize = 0;
        while i < self.annotations.len()
            invariant
                i <= self.annotations@.len(),
                forall|j: int| 0 <= j < i ==> #[trigger] self.annotations@[j]@ != a@,
            decreases self.annotations@.len() - i,
        {
            if str_eq(self.annotations[i].as_str(), a) {
                return true;
            }
            i = i + 1;
        }
        false
    }
}

} // verus!
