use crate::ml_decl::{MLArgDef, MLDecl, MLField, MLFile, MLFun, MLFunBody, MLStruct};
use crate::ml_expr::{expr_type, MLExpr, MLStmt, MLVar};
use crate::ml_type::{same_ml_type, MLValueType};
use crate::text::{append_str, str_eq, string_of};
use vstd::prelude::*;

verus! {

/// An error of the module builder, with its message.
#[derive(Debug, PartialEq, Eq)]
pub struct BuilderError(pub String);

/// A function under construction.
#[derive(Debug)]
pub struct FunBuilder {
    modifiers: Vec<String>,
    name: String,
    arg_defs: Vec<MLArgDef>,
    return_type: MLValueType,
    stmts: Vec<MLStmt>,
    declare: bool,
}

/// `b` is a new builder of a function named `name` with the parameters
/// `args` and the return type `ret`, without modifiers or body.
pub open spec fn fresh_fun(b: FunBuilder, name: String, args: Vec<MLArgDef>, ret: MLValueType) -> bool {
    &&& b.built().modifiers@.len() == 0
    &&& b.built().name == name
    &&& b.built().arg_defs == args
    &&& b.built().return_type == ret
    &&& b.built().body is None
}

impl FunBuilder {
    /// The function this builder builds.
    pub closed spec fn built(&self) -> MLFun {
        MLFun {
            modifiers: self.modifiers,
            name: self.name,
            arg_defs: self.arg_defs,
            return_type: self.return_type,
            body: if self.declare {
                None
            } else {
                Some(MLFunBody { body: self.stmts })
            },
        }
    }

    /// The name of the function this builder builds.
    pub open spec fn fun_name(&self) -> Seq<char> {
        self.built().name@
    }

    /// A builder of a function declared without a body.
    pub fn new(name: String, arg_defs: Vec<MLArgDef>, return_type: MLValueType) -> (r: Self)
        ensures
            fresh_fun(r, name, arg_defs, return_type),
    {
        FunBuilder { modifiers: Vec::new(), name, arg_defs, return_type, stmts: Vec::new(), declare: true }
    }

    /// The name of the function.
    pub fn name(&self) -> (r: &String)
        ensures
            r@ == self.fun_name(),
    {
        &self.name
    }

    /// The function built.
    pub fn build(self) -> (r: MLFun)
        ensures
            r == self.built(),
    {
        MLFun {
            modifiers: self.modifiers,
            name: self.name,
            arg_defs: self.arg_defs,
            return_type: self.return_type,
            body: if self.declare {
                None
            } else {
                Some(MLFunBody { body: self.stmts })
            },
        }
    }

    /// A builder that builds the function `f` again.
    pub fn from_fun(f: MLFun) -> (r: Self)
        ensures
            r.built() == f,
    {
        let (stmts, declare) = match f.body {
            None => (Vec::new(), true),
            Some(b) => (b.body, false),
        };
        FunBuilder {
            modifiers: f.modifiers,
            name: f.name,
            arg_defs: f.arg_defs,
            return_type: f.return_type,
            stmts,
            declare,
        }
    }
}

/// The names of the functions `s`.
pub open spec fn fun_names(s: Seq<FunBuilder>) -> Seq<Seq<char>> {
    s.map_values(|b: FunBuilder| b.fun_name())
}

/// The names of the variables `s`.
pub open spec fn var_names(s: Seq<MLVar>) -> Seq<Seq<char>> {
    s.map_values(|v: MLVar| v.name@)
}

/// The names of the structs `s`.
pub open spec fn struct_names(s: Seq<MLStruct>) -> Seq<Seq<char>> {
    s.map_values(|d: MLStruct| d.name@)
}

/// `i` is where `n` first occurs in `names`.
pub open spec fn first_at(names: Seq<Seq<char>>, n: Seq<char>, i: int) -> bool {
    &&& 0 <= i < names.len()
    &&& names[i] == n
    &&& forall|j: int| 0 <= j < i ==> names[j] != n
}

/// A name that occurs in `names` has a first position there.
pub proof fn lemma_first_at(names: Seq<Seq<char>>, n: Seq<char>) -> (i: int)
    requires
        names.contains(n),
    ensures
        first_at(names, n, i),
    decreases names.len(),
{
    let init = names.drop_last();
    if init.contains(n) {
        let i = lemma_first_at(init, n);
        assert(names[i] == init[i]);
        assert forall|j: int| 0 <= j < i implies names[j] != n by {
            assert(init[j] == names[j]);
        }
        i
    } else {
        let i = names.len() - 1;
        assert forall|j: int| 0 <= j < i implies names[j] != n by {
            assert(init[j] == names[j]);
        }
        i
    }
}

/// Once a function is added, looking its name up finds it, and a function
/// of another name is found where it was, unchanged.
pub proof fn law_function_found_after_add(before: Seq<FunBuilder>, fun: FunBuilder, after: Seq<FunBuilder>)
    requires
        forall|i: int| first_at(fun_names(before), fun.fun_name(), i) ==> after == before.update(i, fun),
        !fun_names(before).contains(fun.fun_name()) ==> after == before.push(fun),
    ensures
        exists|i: int| first_at(fun_names(after), fun.fun_name(), i) && after[i] == fun,
        forall|m: Seq<char>, j: int|
            m != fun.fun_name() && #[trigger] first_at(fun_names(before), m, j) ==> first_at(fun_names(after), m, j)
                && after[j] == before[j],
{
    let n = fun.fun_name();
    if fun_names(before).contains(n) {
        let i = lemma_first_at(fun_names(before), n);
        assert(after == before.update(i, fun));
        assert(fun_names(after) =~= fun_names(before).update(i, n));
        assert(first_at(fun_names(after), n, i));
        assert forall|m: Seq<char>, j: int|
            m != n && #[trigger] first_at(fun_names(before), m, j) implies first_at(fun_names(after), m, j) && after[j]
            == before[j] by {
            assert(j != i);
        }
    } else {
        assert(after == before.push(fun));
        assert(fun_names(after) =~= fun_names(before).push(n));
        assert(first_at(fun_names(after), n, before.len() as int));
    }
}

/// Once a global variable is added, looking its name up finds it, and a
/// variable of another name is found where it was, unchanged.
pub proof fn law_variable_found_after_add(before: Seq<MLVar>, var: MLVar, after: Seq<MLVar>)
    requires
        forall|i: int| first_at(var_names(before), var.name@, i) ==> after == before.update(i, var),
        !var_names(before).contains(var.name@) ==> after == before.push(var),
    ensures
        exists|i: int| first_at(var_names(after), var.name@, i) && after[i] == var,
        forall|m: Seq<char>, j: int|
            m != var.name@ && #[trigger] first_at(var_names(before), m, j) ==> first_at(var_names(after), m, j)
                && after[j] == before[j],
{
    let n = var.name@;
    if var_names(before).contains(n) {
        let i = lemma_first_at(var_names(before), n);
        assert(after == before.update(i, var));
        assert(var_names(after) =~= var_names(before).update(i, n));
        assert(first_at(var_names(after), n, i));
        assert forall|m: Seq<char>, j: int|
            m != n && #[trigger] first_at(var_names(before), m, j) implies first_at(var_names(after), m, j) && after[j]
            == before[j] by {
            assert(j != i);
        }
    } else {
        assert(after == before.push(var));
        assert(var_names(after) =~= var_names(before).push(n));
        assert(first_at(var_names(after), n, before.len() as int));
    }
}

/// `v` is the global variable `name`, not mutable, holding `value` and
/// typed by it.
pub open spec fn fresh_var(v: MLVar, name: String, value: MLExpr) -> bool {
    &&& !v.is_mute
    &&& v.name == name
    &&& v.value == value
    &&& same_ml_type(v.type_, expr_type(value))
}

/// The declarations of a file made of the structs `structs`, the variables
/// `vars` and the functions that `funs` build, in that order.
pub open spec fn file_body(structs: Seq<MLStruct>, vars: Seq<MLVar>, funs: Seq<FunBuilder>) -> Seq<MLDecl> {
    structs.map_values(|s: MLStruct| MLDecl::Struct(s)) + vars.map_values(|v: MLVar| MLDecl::Var(v))
        + funs.map_values(|b: FunBuilder| MLDecl::Fun(b.built()))
}

/// Putting a name where the same name was keeps a list of names free of
/// repeats; adding a name not in it does too.
proof fn lemma_names_stay_unique(names: Seq<Seq<char>>, i: int, n: Seq<char>)
    requires
        names.no_duplicates(),
    ensures
        0 <= i < names.len() && names[i] == n ==> names.update(i, n) == names,
        !names.contains(n) ==> names.push(n).no_duplicates(),
{
    if 0 <= i < names.len() && names[i] == n {
        assert(names.update(i, n) =~= names);
    }
    if !names.contains(n) {
        assert forall|a: int, b: int| 0 <= a < names.push(n).len() && 0 <= b < names.push(n).len() && a != b
            implies names.push(n)[a] != names.push(n)[b] by {
            if a == names.len() {
                assert(names[b] != n);
            } else if b == names.len() {
                assert(names[a] != n);
            }
        }
    }
}

/// Replacing the function at `i` by one of the same name, or adding one of
/// a new name, keeps the functions' names free of repeats.
proof fn lemma_funs_stay_unique(s: Seq<FunBuilder>, i: int)
    requires
        fun_names(s).no_duplicates(),
    ensures
        0 <= i < s.len() ==> forall|y: FunBuilder|
            y.fun_name() == s[i].fun_name() ==> #[trigger] fun_names(s.update(i, y)).no_duplicates(),
        forall|y: FunBuilder| !fun_names(s).contains(y.fun_name()) ==> #[trigger] fun_names(s.push(y)).no_duplicates(),
{
    if 0 <= i < s.len() {
        assert forall|y: FunBuilder| y.fun_name() == s[i].fun_name() implies #[trigger] fun_names(s.update(i, y)).no_duplicates() by {
            assert(fun_names(s.update(i, y)) =~= fun_names(s).update(i, y.fun_name()));
            lemma_names_stay_unique(fun_names(s), i, y.fun_name());
        }
    }
    assert forall|y: FunBuilder| !fun_names(s).contains(y.fun_name()) implies #[trigger] fun_names(s.push(y)).no_duplicates() by {
        assert(fun_names(s.push(y)) =~= fun_names(s).push(y.fun_name()));
        lemma_names_stay_unique(fun_names(s), -1, y.fun_name());
    }
}

/// As `lemma_funs_stay_unique`, for global variables.
proof fn lemma_vars_stay_unique(s: Seq<MLVar>, i: int)
    requires
        var_names(s).no_duplicates(),
    ensures
        0 <= i < s.len() ==> forall|y: MLVar|
            y.name@ == s[i].name@ ==> #[trigger] var_names(s.update(i, y)).no_duplicates(),
        forall|y: MLVar| !var_names(s).contains(y.name@) ==> #[trigger] var_names(s.push(y)).no_duplicates(),
{
    if 0 <= i < s.len() {
        assert forall|y: MLVar| y.name@ == s[i].name@ implies #[trigger] var_names(s.update(i, y)).no_duplicates() by {
            assert(var_names(s.update(i, y)) =~= var_names(s).update(i, y.name@));
            lemma_names_stay_unique(var_names(s), i, y.name@);
        }
    }
    assert forall|y: MLVar| !var_names(s).contains(y.name@) implies #[trigger] var_names(s.push(y)).no_duplicates() by {
        assert(var_names(s.push(y)) =~= var_names(s).push(y.name@));
        lemma_names_stay_unique(var_names(s), -1, y.name@);
    }
}

/// As `lemma_funs_stay_unique`, for structs.
proof fn lemma_structs_stay_unique(s: Seq<MLStruct>, i: int)
    requires
        struct_names(s).no_duplicates(),
    ensures
        0 <= i < s.len() ==> forall|y: MLStruct|
            y.name@ == s[i].name@ ==> #[trigger] struct_names(s.update(i, y)).no_duplicates(),
        forall|y: MLStruct| !struct_names(s).contains(y.name@) ==> #[trigger] struct_names(s.push(y)).no_duplicates(),
{
    if 0 <= i < s.len() {
        assert forall|y: MLStruct| y.name@ == s[i].name@ implies #[trigger] struct_names(s.update(i, y)).no_duplicates() by {
            assert(struct_names(s.update(i, y)) =~= struct_names(s).update(i, y.name@));
            lemma_names_stay_unique(struct_names(s), i, y.name@);
        }
    }
    assert forall|y: MLStruct| !struct_names(s).contains(y.name@) implies #[trigger] struct_names(s.push(y)).no_duplicates() by {
        assert(struct_names(s.push(y)) =~= struct_names(s).push(y.name@));
        lemma_names_stay_unique(struct_names(s), -1, y.name@);
    }
}

/// Where no name repeats, a name's first position is its only one.
pub proof fn law_unique_name_has_one_position(names: Seq<Seq<char>>, n: Seq<char>, i: int)
    requires
        names.no_duplicates(),
        0 <= i < names.len(),
        names[i] == n,
    ensures
        first_at(names, n, i),
        forall|j: int| 0 <= j < names.len() && #[trigger] names[j] == n ==> j == i,
{
}

/// A module of the mid-level IR under construction: its functions, global
/// variables and structs, each kind found by name, and the function being
/// built.
#[derive(Debug)]
pub struct MLIRModule {
    functions: Vec<FunBuilder>,
    variables: Vec<MLVar>,
    structs: Vec<MLStruct>,
    current_function: Option<String>,
}

impl MLIRModule {
    /// The functions, in the order they were first added.
    pub closed spec fn functions(&self) -> Seq<FunBuilder> {
        self.functions@
    }

    /// The global variables, in the order they were first added.
    pub closed spec fn variables(&self) -> Seq<MLVar> {
        self.variables@
    }

    /// The structs, in the order they were first added.
    pub closed spec fn structs(&self) -> Seq<MLStruct> {
        self.structs@
    }

    /// The name of the function being built, if one is.
    pub closed spec fn current(&self) -> Option<Seq<char>> {
        match self.current_function {
            Some(n) => Some(n@),
            None => None,
        }
    }

    /// No two functions, no two global variables and no two structs of the
    /// module share a name.
    pub open spec fn names_unique(&self) -> bool {
        &&& fun_names(self.functions()).no_duplicates()
        &&& var_names(self.variables()).no_duplicates()
        &&& struct_names(self.structs()).no_duplicates()
    }

    /// An empty module.
    pub fn new() -> (r: Self)
        ensures
            r.names_unique(),
            r.functions().len() == 0,
            r.variables().len() == 0,
            r.structs().len() == 0,
            r.current() is None,
    {
        MLIRModule { functions: Vec::new(), variables: Vec::new(), structs: Vec::new(), current_function: None }
    }

    /// Where the function `name` first is, if it is there.
    fn find_function(&self, name: &str) -> (r: Option<usize>)
        ensures
            match r {
                Some(i) => first_at(fun_names(self.functions()), name@, i as int),
                None => !fun_names(self.functions()).contains(name@),
            },
    {
        let mut i: usize = 0;
        while i < self.functions.len()
            invariant
                i <= self.functions@.len(),
                forall|j: int| 0 <= j < i ==> fun_names(self.functions())[j] != name@,
            decreases self.functions@.len() - i,
        {
            if str_eq(self.functions[i].name.as_str(), name) {
                return Some(i);
            }
            i = i + 1;
        }
        None
    }

    /// Where the variable `name` first is, if it is there.
    fn find_variable(&self, name: &str) -> (r: Option<usize>)
        ensures
            match r {
                Some(i) => first_at(var_names(self.variables()), name@, i as int),
                None => !var_names(self.variables()).contains(name@),
            },
    {
        let mut i: usize = 0;
        while i < self.variables.len()
            invariant
                i <= self.variables@.len(),
                forall|j: int| 0 <= j < i ==> var_names(self.variables())[j] != name@,
            decreases self.variables@.len() - i,
        {
            if str_eq(self.variables[i].name.as_str(), name) {
                return Some(i);
            }
            i = i + 1;
        }
        None
    }

    /// Where the struct `name` first is, if it is there.
    fn find_struct(&self, name: &str) -> (r: Option<usize>)
        ensures
            match r {
                Some(i) => first_at(struct_names(self.structs()), name@, i as int),
                None => !struct_names(self.structs()).contains(name@),
            },
    {
        let mut i: usize = 0;
        while i < self.structs.len()
            invariant
                i <= self.structs@.len(),
                forall|j: int| 0 <= j < i ==> struct_names(self.structs())[j] != name@,
            decreases self.structs@.len() - i,
        {
            if str_eq(self.structs[i].name.as_str(), name) {
                return Some(i);
            }
            i = i + 1;
        }
        None
    }

    /// The function `name`, to be changed in place, if there is one.
    pub fn get_function(&mut self, name: &String) -> (r: Option<&mut FunBuilder>)
        ensures
            forall|i: int|
                #[trigger] first_at(fun_names(old(self).functions()), name@, i) ==> (r matches Some(x)
                    && *x == old(self).functions()[i] && final(self).functions() == old(self).functions().update(i, *final(x))),
            !fun_names(old(self).functions()).contains(name@) ==> r is None && final(self).functions()
                == old(self).functions(),
            final(self).variables() == old(self).variables(),
            final(self).structs() == old(self).structs(),
            final(self).current() == old(self).current(),
            old(self).names_unique() && (r is Some ==> (*final(r.unwrap())).fun_name() == (*r.unwrap()).fun_name())
                ==> final(self).names_unique(),
    {
        match self.find_function(name.as_str()) {
            Some(i) => {
                proof {
                    if self.names_unique() {
                        lemma_funs_stay_unique(self.functions(), i as int);
                    }
                }
                Some(&mut self.functions[i])
            },
            None => None,
        }
    }

    /// Adds the function that `fun` builds, in place of one of the same name
    /// if there is one. The function is handed back to be changed in place
    /// only where it took the place of another.
    pub fn _add_function(&mut self, fun: FunBuilder) -> (r: Option<&mut FunBuilder>)
        ensures
            forall|i: int|
                #[trigger] first_at(fun_names(old(self).functions()), fun.fun_name(), i) ==> (r matches Some(x)
                    && *x == fun && final(self).functions() == old(self).functions().update(i, *final(x))),
            !fun_names(old(self).functions()).contains(fun.fun_name()) ==> r is None && final(self).functions() == old(self).functions().push(fun),
            final(self).variables() == old(self).variables(),
            final(self).structs() == old(self).structs(),
            final(self).current() == old(self).current(),
            old(self).names_unique() && (r is Some ==> (*final(r.unwrap())).fun_name() == fun.fun_name())
                ==> final(self).names_unique(),
    {
        let name = fun.name.clone();
        match self.find_function(name.as_str()) {
            Some(i) => {
                proof {
                    if self.names_unique() {
                        lemma_funs_stay_unique(self.functions(), i as int);
                        assert(fun_names(self.functions().update(i as int, fun)).no_duplicates());
                    }
                }
                self.functions.set(i, fun);
                proof {
                    if old(self).names_unique() {
                        lemma_funs_stay_unique(self.functions(), i as int);
                    }
                }
                Some(&mut self.functions[i])
            },
            None => {
                proof {
                    if self.names_unique() {
                        lemma_funs_stay_unique(self.functions(), -1);
                    }
                }
                self.functions.push(fun);
                proof {
                    if old(self).names_unique() {
                        assert(self.functions() == old(self).functions().push(fun));
                    }
                }
                None
            },
        }
    }

    /// Adds the function that `fun` builds, in place of one of the same name
    /// if there is one.
    fn put_function(&mut self, fun: FunBuilder)
        ensures
            forall|i: int|
                #[trigger] first_at(fun_names(old(self).functions()), fun.fun_name(), i) ==> final(self).functions()
                    == old(self).functions().update(i, fun),
            !fun_names(old(self).functions()).contains(fun.fun_name()) ==> final(self).functions()
                == old(self).functions().push(fun),
            final(self).variables() == old(self).variables(),
            final(self).structs() == old(self).structs(),
            final(self).current() == old(self).current(),
            old(self).names_unique() ==> final(self).names_unique(),
    {
        let name = fun.name.clone();
        match self.find_function(name.as_str()) {
            Some(i) => {
                proof {
                    if self.names_unique() {
                        lemma_funs_stay_unique(self.functions(), i as int);
                        assert(fun_names(self.functions().update(i as int, fun)).no_duplicates());
                    }
                }
                self.functions.set(i, fun);
            },
            None => {
                proof {
                    if self.names_unique() {
                        lemma_funs_stay_unique(self.functions(), -1);
                        assert(fun_names(self.functions().push(fun)).no_duplicates());
                    }
                }
                self.functions.push(fun);
            },
        }
    }

    /// Adds a function declared without a body, in place of one of the same
    /// name if there is one; see `_add_function` for what is handed back.
    pub fn create_function(&mut self, name: String, args: Vec<MLArgDef>, return_type: MLValueType) -> (r:
        Option<&mut FunBuilder>)
        ensures
            forall|i: int|
                #[trigger] first_at(fun_names(old(self).functions()), name@, i) ==> (r matches Some(x)
                    && fresh_fun(*x, name, args, return_type) && final(self).functions() == old(self).functions().update(i, *final(x))),
            !fun_names(old(self).functions()).contains(name@) ==> {
                &&& r is None
                &&& final(self).functions().len() == old(self).functions().len() + 1
                &&& final(self).functions().drop_last() == old(self).functions()
                &&& fresh_fun(final(self).functions().last(), name, args, return_type)
            },
            final(self).variables() == old(self).variables(),
            final(self).structs() == old(self).structs(),
            final(self).current() == old(self).current(),
            old(self).names_unique() && (r is Some ==> (*final(r.unwrap())).fun_name() == name@)
                ==> final(self).names_unique(),
    {
        let b = FunBuilder::new(name, args, return_type);
        let r = self._add_function(b);
        proof {
            assert(b.fun_name() == name@);
        }
        r
    }

    /// The struct `name`, to be changed in place, if there is one.
    pub fn get_struct(&mut self, name: &String) -> (r: Option<&mut MLStruct>)
        ensures
            forall|i: int|
                #[trigger] first_at(struct_names(old(self).structs()), name@, i) ==> (r matches Some(x)
                    && *x == old(self).structs()[i] && final(self).structs() == old(self).structs().update(
                    i,
                    *final(x),
                )),
            !struct_names(old(self).structs()).contains(name@) ==> r is None && final(self).structs()
                == old(self).structs(),
            final(self).functions() == old(self).functions(),
            final(self).variables() == old(self).variables(),
            final(self).current() == old(self).current(),
            old(self).names_unique() && (r is Some ==> (*final(r.unwrap())).name@ == (*r.unwrap()).name@)
                ==> final(self).names_unique(),
    {
        match self.find_struct(name.as_str()) {
            Some(i) => {
                proof {
                    if self.names_unique() {
                        lemma_structs_stay_unique(self.structs(), i as int);
                    }
                }
                Some(&mut self.structs[i])
            },
            None => None,
        }
    }

    /// Adds the struct `s`, in place of one of the same name if there is
    /// one. The struct is handed back to be changed in place only where it
    /// took the place of another.
    fn add_struct(&mut self, s: MLStruct) -> (r: Option<&mut MLStruct>)
        ensures
            forall|i: int|
                #[trigger] first_at(struct_names(old(self).structs()), s.name@, i) ==> (r matches Some(x)
                    && *x == s && final(self).structs() == old(self).structs().update(i, *final(x))),
            !struct_names(old(self).structs()).contains(s.name@) ==> r is None && final(self).structs()
                == old(self).structs().push(s),
            final(self).functions() == old(self).functions(),
            final(self).variables() == old(self).variables(),
            final(self).current() == old(self).current(),
            old(self).names_unique() && (r is Some ==> (*final(r.unwrap())).name@ == s.name@)
                ==> final(self).names_unique(),
    {
        let name = s.name.clone();
        match self.find_struct(name.as_str()) {
            Some(i) => {
                proof {
                    if self.names_unique() {
                        lemma_structs_stay_unique(self.structs(), i as int);
                        assert(struct_names(self.structs().update(i as int, s)).no_duplicates());
                    }
                }
                self.structs.set(i, s);
                proof {
                    if old(self).names_unique() {
                        lemma_structs_stay_unique(self.structs(), i as int);
                    }
                }
                Some(&mut self.structs[i])
            },
            None => {
                proof {
                    if self.names_unique() {
                        lemma_structs_stay_unique(self.structs(), -1);
                    }
                }
                self.structs.push(s);
                proof {
                    if old(self).names_unique() {
                        assert(self.structs() == old(self).structs().push(s));
                    }
                }
                None
            },
        }
    }

    /// Adds the struct `name` with the fields `fields`; see `add_struct`.
    pub fn create_struct(&mut self, name: String, fields: Vec<MLField>) -> (r: Option<&mut MLStruct>)
        ensures
            forall|i: int|
                #[trigger] first_at(struct_names(old(self).structs()), name@, i) ==> (r matches Some(x)
                    && *x == (MLStruct { name, fields }) && final(self).structs() == old(self).structs().update(
                    i,
                    *final(x),
                )),
            !struct_names(old(self).structs()).contains(name@) ==> r is None && final(self).structs()
                == old(self).structs().push(MLStruct { name, fields }),
            final(self).functions() == old(self).functions(),
            final(self).variables() == old(self).variables(),
            final(self).current() == old(self).current(),
            old(self).names_unique() && (r is Some ==> (*final(r.unwrap())).name@ == name@)
                ==> final(self).names_unique(),
    {
        self.add_struct(MLStruct { name, fields })
    }

    /// The global variable `name`, to be changed in place, if there is one.
    pub fn get_global_var(&mut self, name: &String) -> (r: Option<&mut MLVar>)
        ensures
            forall|i: int|
                #[trigger] first_at(var_names(old(self).variables()), name@, i) ==> (r matches Some(x)
                    && *x == old(self).variables()[i] && final(self).variables() == old(self).variables().update(i, *final(x))),
            !var_names(old(self).variables()).contains(name@) ==> r is None && final(self).variables()
                == old(self).variables(),
            final(self).functions() == old(self).functions(),
            final(self).structs() == old(self).structs(),
            final(self).current() == old(self).current(),
            old(self).names_unique() && (r is Some ==> (*final(r.unwrap())).name@ == (*r.unwrap()).name@)
                ==> final(self).names_unique(),
    {
        match self.find_variable(name.as_str()) {
            Some(i) => {
                proof {
                    if self.names_unique() {
                        lemma_vars_stay_unique(self.variables(), i as int);
                    }
                }
                Some(&mut self.variables[i])
            },
            None => None,
        }
    }

    /// Adds the global variable `var`, in place of one of the same name if
    /// there is one. The variable is handed back to be changed in place only
    /// where it took the place of another.
    pub fn add_global_var(&mut self, var: MLVar) -> (r: Option<&mut MLVar>)
        ensures
            forall|i: int|
                #[trigger] first_at(var_names(old(self).variables()), var.name@, i) ==> (r matches Some(x)
                    && *x == var && final(self).variables() == old(self).variables().update(i, *final(x))),
            !var_names(old(self).variables()).contains(var.name@) ==> r is None && final(self).variables()
                == old(self).variables().push(var),
            final(self).functions() == old(self).functions(),
            final(self).structs() == old(self).structs(),
            final(self).current() == old(self).current(),
            old(self).names_unique() && (r is Some ==> (*final(r.unwrap())).name@ == var.name@)
                ==> final(self).names_unique(),
    {
        let name = var.name.clone();
        match self.find_variable(name.as_str()) {
            Some(i) => {
                proof {
                    if self.names_unique() {
                        lemma_vars_stay_unique(self.variables(), i as int);
                        assert(var_names(self.variables().update(i as int, var)).no_duplicates());
                    }
                }
                self.variables.set(i, var);
                proof {
                    if old(self).names_unique() {
                        lemma_vars_stay_unique(self.variables(), i as int);
                    }
                }
                Some(&mut self.variables[i])
            },
            None => {
                proof {
                    if self.names_unique() {
                        lemma_vars_stay_unique(self.variables(), -1);
                    }
                }
                self.variables.push(var);
                proof {
                    if old(self).names_unique() {
                        assert(self.variables() == old(self).variables().push(var));
                    }
                }
                None
            },
        }
    }

    /// Adds the global variable `name`, not mutable, holding `value` and
    /// typed by it; see `add_global_var`.
    pub fn create_global_var(&mut self, name: String, value: MLExpr) -> (r: Option<&mut MLVar>)
        ensures
            forall|i: int|
                #[trigger] first_at(var_names(old(self).variables()), name@, i) ==> (r matches Some(x)
                    && fresh_var(*x, name, value) && final(self).variables() == old(self).variables().update(
                    i,
                    *final(x),
                )),
            !var_names(old(self).variables()).contains(name@) ==> {
                &&& r is None
                &&& final(self).variables().len() == old(self).variables().len() + 1
                &&& final(self).variables().drop_last() == old(self).variables()
                &&& fresh_var(final(self).variables().last(), name, value)
            },
            final(self).functions() == old(self).functions(),
            final(self).structs() == old(self).structs(),
            final(self).current() == old(self).current(),
            old(self).names_unique() && (r is Some ==> (*final(r.unwrap())).name@ == name@)
                ==> final(self).names_unique(),
    {
        let type_ = value.type_();
        self.add_global_var(MLVar { is_mute: false, name, type_, value })
    }

    /// The file of the module's structs, then its global variables, then its
    /// functions, each kind in the order first added.
    pub fn to_mlir_file(self, name: String) -> (r: MLFile)
        ensures
            r.name == name,
            r.body@ == file_body(self.structs(), self.variables(), self.functions()),
    {
        let ghost structs = self.structs@;
        let ghost vars = self.variables@;
        let ghost funs = self.functions@;
        let mut body: Vec<MLDecl> = Vec::new();
        for s in it: self.structs.into_iter()
            invariant
                it.seq() == structs,
                body@ == structs.take(it.index() as int).map_values(|s: MLStruct| MLDecl::Struct(s)),
        {
            let ghost before = body@;
            body.push(MLDecl::Struct(s));
            assert(structs.take(it.index() + 1) =~= structs.take(it.index() as int).push(s));
            assert(body@ =~= structs.take(it.index() + 1).map_values(|s: MLStruct| MLDecl::Struct(s)));
        }
        assert(structs.take(structs.len() as int) =~= structs);
        let ghost base1 = body@;
        for v in it: self.variables.into_iter()
            invariant
                it.seq() == vars,
                body@ == base1 + vars.take(it.index() as int).map_values(|v: MLVar| MLDecl::Var(v)),
        {
            body.push(MLDecl::Var(v));
            assert(vars.take(it.index() + 1) =~= vars.take(it.index() as int).push(v));
            assert(body@ =~= base1 + vars.take(it.index() + 1).map_values(|v: MLVar| MLDecl::Var(v)));
        }
        assert(vars.take(vars.len() as int) =~= vars);
        let ghost base2 = body@;
        for b in it: self.functions.into_iter()
            invariant
                it.seq() == funs,
                body@ == base2 + funs.take(it.index() as int).map_values(|b: FunBuilder| MLDecl::Fun(b.built())),
        {
            let f = b.build();
            body.push(MLDecl::Fun(f));
            assert(funs.take(it.index() + 1) =~= funs.take(it.index() as int).push(b));
            assert(body@ =~= base2 + funs.take(it.index() + 1).map_values(
                |b: FunBuilder| MLDecl::Fun(b.built()),
            ));
        }
        assert(funs.take(funs.len() as int) =~= funs);
        MLFile { name, body }
    }

    /// The function being built, or an error when none is set or it is not
    /// in the module.
    fn current_function(&mut self) -> (r: Result<&mut FunBuilder, BuilderError>)
        ensures
            final(self).variables() == old(self).variables(),
            final(self).structs() == old(self).structs(),
            final(self).current() == old(self).current(),
            match old(self).current() {
                None => r matches Err(e) && e.0@ == "Build target not set"@ && final(self).functions() == old(self).functions(),
                Some(n) => {
                    &&& !fun_names(old(self).functions()).contains(n) ==> (r matches Err(e) && e.0@ == n
                        + " is not exist"@ && final(self).functions() == old(self).functions())
                    &&& forall|i: int|
                        #[trigger] first_at(fun_names(old(self).functions()), n, i) ==> (r matches Ok(x)
                            && *x == old(self).functions()[i] && final(self).functions() == old(self).functions().update(i, *final(x)))
                },
            },
    {
        let fun_name = match &self.current_function {
            Some(n) => n.clone(),
            None => {
                return Err(BuilderError(string_of("Build target not set")));
            },
        };
        match self.get_function(&fun_name) {
            Some(f) => Ok(f),
            None => {
                let mut message = fun_name;
                append_str(&mut message, " is not exist");
                Err(BuilderError(message))
            },
        }
    }

    /// Makes the function `name` the one being built, adding it as a
    /// declaration in place of one of the same name if there is one.
    pub fn add_function(&mut self, name: String, args: Vec<MLArgDef>, rtype: MLValueType)
        ensures
            final(self).current() == Some(name@),
            forall|i: int|
                #[trigger] first_at(fun_names(old(self).functions()), name@, i) ==> {
                    &&& final(self).functions().len() == old(self).functions().len()
                    &&& fresh_fun(final(self).functions()[i], name, args, rtype)
                    &&& forall|j: int|
                        0 <= j < old(self).functions().len() && j != i ==> final(self).functions()[j] == old(self).functions()[j]
                },
            !fun_names(old(self).functions()).contains(name@) ==> {
                &&& final(self).functions().len() == old(self).functions().len() + 1
                &&& final(self).functions().drop_last() == old(self).functions()
                &&& fresh_fun(final(self).functions().last(), name, args, rtype)
            },
            final(self).variables() == old(self).variables(),
            final(self).structs() == old(self).structs(),
            old(self).names_unique() ==> final(self).names_unique(),
    {
        self.current_function = Some(name.clone());
        self.put_function(FunBuilder::new(name, args, rtype));
    }

    /// Checks that a function is being built and is in the module.
    pub fn build_return(&mut self, value: Option<MLExpr>) -> (r: Result<(), BuilderError>)
        ensures
            final(self).functions() == old(self).functions(),
            final(self).variables() == old(self).variables(),
            final(self).structs() == old(self).structs(),
            final(self).current() == old(self).current(),
            match old(self).current() {
                None => r matches Err(e) && e.0@ == "Build target not set"@,
                Some(n) => if fun_names(old(self).functions()).contains(n) {
                    r is Ok
                } else {
                    r matches Err(e) && e.0@ == n + " is not exist"@
                },
            },
    {
        proof {
            if let Some(n) = old(self).current() {
                if fun_names(old(self).functions()).contains(n) {
                    let i = lemma_first_at(fun_names(old(self).functions()), n);
                }
            }
        }
        let f = self.current_function();
        match f {
            Ok(_) => Ok(()),
            Err(e) => Err(e),
        }
    }
}

/// After `add_function(name, ..)`, the function `name` is the build target
/// and is in the module, declared as added, so `build_return` succeeds;
/// every function of another name is where it was, unchanged.
pub proof fn law_added_function_is_build_target(
    before: MLIRModule,
    after: MLIRModule,
    name: String,
    args: Vec<MLArgDef>,
    rtype: MLValueType,
)
    requires
        after.current() == Some(name@),
        forall|i: int|
            #[trigger] first_at(fun_names(before.functions()), name@, i) ==> {
                &&& after.functions().len() == before.functions().len()
                &&& fresh_fun(after.functions()[i], name, args, rtype)
                &&& forall|j: int|
                    0 <= j < before.functions().len() && j != i ==> after.functions()[j] == before.functions()[j]
            },
        !fun_names(before.functions()).contains(name@) ==> {
            &&& after.functions().len() == before.functions().len() + 1
            &&& after.functions().drop_last() == before.functions()
            &&& fresh_fun(after.functions().last(), name, args, rtype)
        },
    ensures
        after.current() == Some(name@),
        fun_names(after.functions()).contains(name@),
        exists|i: int| first_at(fun_names(after.functions()), name@, i) && fresh_fun(after.functions()[i], name, args, rtype),
        forall|j: int| 0 <= j < before.functions().len() && before.functions()[j].fun_name() != name@
            ==> #[trigger] after.functions()[j] == before.functions()[j],
{
    let b = before.functions();
    let a = after.functions();
    if fun_names(b).contains(name@) {
        let i = lemma_first_at(fun_names(b), name@);
        assert(a[i].fun_name() == name@);
        assert forall|j: int| 0 <= j < i implies fun_names(a)[j] != name@ by {
            assert(a[j] == b[j]);
            assert(fun_names(b)[j] != name@);
        }
        assert(first_at(fun_names(a), name@, i));
        assert(fun_names(a)[i] == name@);
    } else {
        let i = b.len() as int;
        assert(a.last() == a[i]);
        assert(a[i].fun_name() == name@);
        assert forall|j: int| 0 <= j < i implies fun_names(a)[j] != name@ by {
            assert(a.drop_last()[j] == a[j]);
            assert(fun_names(b)[j] == b[j].fun_name());
        }
        assert(first_at(fun_names(a), name@, i));
        assert(fun_names(a)[i] == name@);
        assert forall|j: int| 0 <= j < b.len() && b[j].fun_name() != name@ implies #[trigger] a[j] == b[j] by {
            assert(a.drop_last()[j] == a[j]);
        }
    }
}

} // verus!
