use crate::format::{
    down, fits, lemma_level_change_append, lemma_level_change_single, lemma_run_append, lemma_run_level,
    lemma_run_single, level_change, run, txt, up, FmtState, Formatter, Piece,
};
use crate::ml_expr::{
    braced_pieces, fmt_braced, lemma_braced_balanced, lemma_stmt_balanced, lemma_stmts_balanced, var_head,
    var_pieces, MLStmt, MLVar,
};
use crate::ml_type::{value_type_text, MLValueType};
use crate::text::{append_str, string_of};
use vstd::prelude::*;

verus! {

/// A parameter of a function.
#[derive(Debug, PartialEq, Eq)]
pub struct MLArgDef {
    pub name: String,
    pub type_: MLValueType,
}

/// A field of a struct.
#[derive(Debug, PartialEq, Eq)]
pub struct MLField {
    pub name: String,
    pub type_: MLValueType,
}

/// The statements of a function's body.
#[derive(Debug, PartialEq, Eq)]
pub struct MLFunBody {
    pub body: Vec<MLStmt>,
}

/// A function; one without a body is a declaration only.
#[derive(Debug, PartialEq, Eq)]
pub struct MLFun {
    pub modifiers: Vec<String>,
    pub name: String,
    pub arg_defs: Vec<MLArgDef>,
    pub return_type: MLValueType,
    pub body: Option<MLFunBody>,
}

/// A struct and its fields.
#[derive(Debug, PartialEq, Eq)]
pub struct MLStruct {
    pub name: String,
    pub fields: Vec<MLField>,
}

/// A declaration at the top of a file.
#[derive(Debug, PartialEq, Eq)]
pub enum MLDecl {
    Var(MLVar),
    Fun(MLFun),
    Struct(MLStruct),
}

/// A file of the mid-level IR.
#[derive(Debug, PartialEq, Eq)]
pub struct MLFile {
    pub name: String,
    pub body: Vec<MLDecl>,
}

/// How a parameter is printed: its name, `:` and its type.
pub open spec fn arg_text(a: MLArgDef) -> Seq<char> {
    a.name@ + ":"@ + value_type_text(a.type_)
}

/// The parameters of `s` printed one after the other, separated by `, `.
pub open spec fn args_text(s: Seq<MLArgDef>) -> Seq<char>
    decreases s.len(),
{
    if s.len() == 0 {
        Seq::empty()
    } else if s.len() == 1 {
        arg_text(s[0])
    } else {
        args_text(s.subrange(0, s.len() - 1)) + ", "@ + arg_text(s[s.len() - 1])
    }
}

/// How the fields of `s` are printed: each as its name, `:`, its type and
/// `;`, on a line of its own.
pub open spec fn fields_text(s: Seq<MLField>) -> Seq<char>
    decreases s.len(),
{
    if s.len() == 0 {
        Seq::empty()
    } else {
        fields_text(s.subrange(0, s.len() - 1)) + s[s.len() - 1].name@ + ":"@ + value_type_text(
            s[s.len() - 1].type_,
        ) + ";\n"@
    }
}

/// The printed start of a function: `fun`, its name, its parameters in
/// brackets and its return type after `:`.
pub open spec fn fun_head(f: MLFun) -> Seq<char> {
    "fun "@ + f.name@ + "("@ + args_text(f.arg_defs@) + "):"@ + value_type_text(f.return_type)
}

/// What printing a function writes: its start, then its body, if it has
/// one, and `;`.
pub open spec fn fun_pieces(f: MLFun) -> Seq<Piece> {
    txt(fun_head(f)) + match f.body {
        Some(b) => txt(" "@) + braced_pieces(b.body@),
        None => Seq::empty(),
    } + txt(";"@)
}

/// What printing a struct writes: `struct`, its name, and its fields between
/// braces, indented one level deeper, then `;`.
pub open spec fn struct_pieces(s: MLStruct) -> Seq<Piece> {
    txt("struct "@ + s.name@ + " {\n"@) + up() + txt(fields_text(s.fields@)) + down() + txt("};"@)
}

/// What printing a declaration writes; a variable is ended by `;`.
pub open spec fn decl_pieces(d: MLDecl) -> Seq<Piece> {
    match d {
        MLDecl::Var(v) => var_pieces(v) + txt(";"@),
        MLDecl::Fun(f) => fun_pieces(f),
        MLDecl::Struct(s) => struct_pieces(s),
    }
}

/// What printing the declarations `s` writes, each followed by a line break.
pub open spec fn decls_pieces(s: Seq<MLDecl>) -> Seq<Piece>
    decreases s.len(),
{
    if s.len() == 0 {
        Seq::empty()
    } else {
        decls_pieces(s.subrange(0, s.len() - 1)) + decl_pieces(s[s.len() - 1]) + txt("\n"@)
    }
}

/// Where the level fits along the printing of a run of declarations, it fits
/// along the printing of each of its prefixes.
pub proof fn lemma_decls_prefix_fits(st: FmtState, s: Seq<MLDecl>, j: int)
    requires
        0 <= j <= s.len(),
        fits(st, decls_pieces(s)),
    ensures
        fits(st, decls_pieces(s.subrange(0, j))),
    decreases s.len(),
{
    if j == s.len() {
        assert(s.subrange(0, j) =~= s);
    } else {
        let t = s.subrange(0, s.len() - 1);
        lemma_run_append(st, decls_pieces(t) + decl_pieces(s[s.len() - 1]), txt("\n"@));
        lemma_run_append(st, decls_pieces(t), decl_pieces(s[s.len() - 1]));
        lemma_decls_prefix_fits(st, t, j);
        assert(t.subrange(0, j) =~= s.subrange(0, j));
    }
}

/// Printing a declaration leaves the indentation level as it found it.
pub proof fn lemma_decl_balanced(d: MLDecl)
    ensures
        level_change(decl_pieces(d)) == 0,
{
    match d {
        MLDecl::Var(v) => {
            lemma_stmt_balanced(MLStmt::Var(v));
            lemma_level_change_append(var_pieces(v), txt(";"@));
            lemma_level_change_single(";"@);
        },
        MLDecl::Fun(f) => {
            let head = txt(fun_head(f));
            let body = match f.body {
                Some(b) => txt(" "@) + braced_pieces(b.body@),
                None => Seq::<Piece>::empty(),
            };
            match f.body {
                Some(b) => {
                    lemma_stmts_balanced(b.body@);
                    lemma_braced_balanced(b.body@);
                    lemma_level_change_append(txt(" "@), braced_pieces(b.body@));
                    lemma_level_change_single(" "@);
                },
                None => {
                    assert(level_change(Seq::<Piece>::empty()) == 0);
                },
            }
            lemma_level_change_append(head + body, txt(";"@));
            lemma_level_change_append(head, body);
            lemma_level_change_single(fun_head(f));
            lemma_level_change_single(";"@);
        },
        MLDecl::Struct(st) => {
            let p1 = txt("struct "@ + st.name@ + " {\n"@);
            let p3 = txt(fields_text(st.fields@));
            lemma_level_change_append(p1 + up() + p3 + down(), txt("};"@));
            lemma_level_change_append(p1 + up() + p3, down());
            lemma_level_change_append(p1 + up(), p3);
            lemma_level_change_append(p1, up());
            lemma_level_change_single("struct "@ + st.name@ + " {\n"@);
            lemma_level_change_single(fields_text(st.fields@));
            lemma_level_change_single("};"@);
        },
    }
}

/// Printing the declarations of a file leaves the indentation level as it
/// found it.
pub proof fn lemma_decls_balanced(s: Seq<MLDecl>)
    ensures
        level_change(decls_pieces(s)) == 0,
    decreases s.len(),
{
    if s.len() == 0 {
        assert(level_change(Seq::<Piece>::empty()) == 0);
    } else {
        let t = s.subrange(0, s.len() - 1);
        lemma_decls_balanced(t);
        lemma_decl_balanced(s[s.len() - 1]);
        lemma_level_change_append(decls_pieces(t) + decl_pieces(s[s.len() - 1]), txt("\n"@));
        lemma_level_change_append(decls_pieces(t), decl_pieces(s[s.len() - 1]));
        lemma_level_change_single("\n"@);
    }
}

/// Printing a file ends at the indentation level it started at.
pub proof fn law_file_printing_keeps_indentation(st: FmtState, f: MLFile)
    ensures
        run(st, decls_pieces(f.body@)).1 == st.1,
        run(st, decls_pieces(f.body@)).2 == st.2,
{
    lemma_decls_balanced(f.body@);
    lemma_run_level(st, decls_pieces(f.body@));
}

/// The printed form of the parameters `v`, separated by `, `.
pub fn args_to_text(v: &Vec<MLArgDef>) -> (r: String)
    ensures
        r@ == args_text(v@),
{
    let mut r = String::new();
    let mut i: usize = 0;
    while i < v.len()
        invariant
            i <= v@.len(),
            r@ == args_text(v@.subrange(0, i as int)),
        decreases v@.len() - i,
    {
        if i > 0 {
            append_str(&mut r, ", ");
        }
        append_str(&mut r, v[i].name.as_str());
        append_str(&mut r, ":");
        let t = v[i].type_.to_text();
        append_str(&mut r, t.as_str());
        proof {
            let next = v@.subrange(0, i + 1);
            assert(next.subrange(0, i as int) =~= v@.subrange(0, i as int));
            assert(next[i as int] == v@[i as int]);
            if i == 0 {
                assert(r@ =~= args_text(next));
            } else {
                assert(r@ =~= args_text(next));
            }
        }
        i = i + 1;
    }
    assert(v@.subrange(0, v@.len() as int) =~= v@);
    r
}

/// The printed form of the fields `v`, one per line.
pub fn fields_to_text(v: &Vec<MLField>) -> (r: String)
    ensures
        r@ == fields_text(v@),
{
    let mut r = String::new();
    let mut i: usize = 0;
    while i < v.len()
        invariant
            i <= v@.len(),
            r@ == fields_text(v@.subrange(0, i as int)),
        decreases v@.len() - i,
    {
        append_str(&mut r, v[i].name.as_str());
        append_str(&mut r, ":");
        let t = v[i].type_.to_text();
        append_str(&mut r, t.as_str());
        append_str(&mut r, ";\n");
        proof {
            let next = v@.subrange(0, i + 1);
            assert(next.subrange(0, i as int) =~= v@.subrange(0, i as int));
            assert(next[i as int] == v@[i as int]);
            assert(r@ =~= fields_text(next));
        }
        i = i + 1;
    }
    assert(v@.subrange(0, v@.len() as int) =~= v@);
    r
}

impl MLFun {
    /// The printed start of this function.
    pub fn head_text(&self) -> (r: String)
        ensures
            r@ == fun_head(*self),
    {
        let mut r = string_of("fun ");
        append_str(&mut r, self.name.as_str());
        append_str(&mut r, "(");
        let args = args_to_text(&self.arg_defs);
        append_str(&mut r, args.as_str());
        append_str(&mut r, "):");
        let t = self.return_type.to_text();
        append_str(&mut r, t.as_str());
        r
    }

    /// Prints this function.
    pub fn fmt(&self, f: &mut Formatter)
        requires
            fits(old(f).state(), fun_pieces(*self)),
        ensures
            final(f).state() == run(old(f).state(), fun_pieces(*self)),
    {
        let ghost s0 = f.state();
        let ghost head = txt(fun_head(*self));
        let ghost body = match &self.body {
            Some(b) => txt(" "@) + braced_pieces(b.body@),
            None => Seq::<Piece>::empty(),
        };
        proof {
            lemma_run_append(s0, head + body, txt(";"@));
            lemma_run_append(s0, head, body);
        }
        let h = self.head_text();
        f.write_str(h.as_str());
        match &self.body {
            Some(b) => {
                proof {
                    lemma_run_append(run(s0, head), txt(" "@), braced_pieces(b.body@));
                }
                f.write_str(" ");
                fmt_braced(&b.body, f);
            },
            None => {
                assert(head + body =~= head);
            },
        }
        f.write_str(";");
    }
}

impl MLStruct {
    /// Prints this struct.
    pub fn fmt(&self, f: &mut Formatter)
        requires
            fits(old(f).state(), struct_pieces(*self)),
        ensures
            final(f).state() == run(old(f).state(), struct_pieces(*self)),
    {
        let ghost s0 = f.state();
        let ghost p1 = txt("struct "@ + self.name@ + " {\n"@);
        let ghost p3 = txt(fields_text(self.fields@));
        proof {
            lemma_run_append(s0, p1 + up() + p3 + down(), txt("};"@));
            lemma_run_append(s0, p1 + up() + p3, down());
            lemma_run_append(s0, p1 + up(), p3);
            lemma_run_append(s0, p1, up());
            lemma_run_single(s0, "struct "@ + self.name@ + " {\n"@);
            lemma_run_single(run(s0, p1 + up()), fields_text(self.fields@));
            lemma_run_single(run(s0, p1), Seq::<char>::empty());
            lemma_run_single(run(s0, p1 + up() + p3), Seq::<char>::empty());
        }
        let mut head = string_of("struct ");
        append_str(&mut head, self.name.as_str());
        append_str(&mut head, " {\n");
        f.write_str(head.as_str());
        f.indent_level_up();
        let fields = fields_to_text(&self.fields);
        f.write_str(fields.as_str());
        f.indent_level_down();
        f.write_str("};");
    }
}

impl MLDecl {
    /// Prints this declaration.
    pub fn fmt(&self, f: &mut Formatter)
        requires
            fits(old(f).state(), decl_pieces(*self)),
        ensures
            final(f).state() == run(old(f).state(), decl_pieces(*self)),
    {
        match self {
            MLDecl::Var(v) => {
                proof {
                    lemma_run_append(f.state(), var_pieces(*v), txt(";"@));
                }
                v.fmt(f);
                f.write_str(";");
            },
            MLDecl::Fun(fun) => fun.fmt(f),
            MLDecl::Struct(s) => s.fmt(f),
        }
    }
}

impl MLFile {
    /// Prints the declarations of this file, each followed by a line break.
    pub fn fmt(&self, f: &mut Formatter)
        requires
            fits(old(f).state(), decls_pieces(self.body@)),
        ensures
            final(f).state() == run(old(f).state(), decls_pieces(self.body@)),
    {
        let ghost s0 = f.state();
        let mut i: usize = 0;
        while i < self.body.len()
            invariant
                i <= self.body@.len(),
                fits(s0, decls_pieces(self.body@)),
                f.state() == run(s0, decls_pieces(self.body@.subrange(0, i as int))),
            decreases self.body@.len() - i,
        {
            proof {
                let next = self.body@.subrange(0, i + 1);
                assert(next.subrange(0, i as int) =~= self.body@.subrange(0, i as int));
                assert(next[i as int] == self.body@[i as int]);
                let a = decls_pieces(self.body@.subrange(0, i as int));
                let b = decl_pieces(self.body@[i as int]);
                assert(decls_pieces(next) == a + b + txt("\n"@));
                lemma_decls_prefix_fits(s0, self.body@, i + 1);
                lemma_run_append(s0, a + b, txt("\n"@));
                lemma_run_append(s0, a, b);
            }
            self.body[i].fmt(f);
            f.write_str("\n");
            i = i + 1;
        }
        assert(self.body@.subrange(0, self.body@.len() as int) =~= self.body@);
    }
}

} // verus!
