use crate::format::{
    down, fits, lemma_fits_bounds, lemma_level_change_append, lemma_level_change_single, lemma_run_append, lemma_run_level,
    lemma_run_single, level_change, run, txt, up, FmtState, Formatter, Piece,
};
use crate::ml_type::{
    same_ml_type, same_value_type, type_text, value_type_text, MLPrimitiveType, MLType, MLValueType,
};
use crate::text::{append_str, string_of};
use vstd::prelude::*;

verus! {

/// A literal of the mid-level IR, with its type. Numbers and booleans are
/// kept as written.
#[derive(Debug, PartialEq, Eq)]
pub enum MLLiteral {
    Integer { value: String, type_: MLValueType },
    FloatingPoint { value: String, type_: MLValueType },
    String { value: String, type_: MLValueType },
    Boolean { value: String, type_: MLValueType },
    Null { type_: MLValueType },
    /// A value of a struct type, built from its fields, each named.
    Struct { fields: Vec<(String, MLExpr)>, type_: MLValueType },
}

/// A name, with the type of what it names.
#[derive(Debug, PartialEq, Eq)]
pub struct MLName {
    pub name: String,
    pub type_: MLType,
}

/// An expression of the mid-level IR.
#[derive(Debug, PartialEq, Eq)]
pub enum MLExpr {
    Name(MLName),
    Literal(MLLiteral),
    If(MLIf),
    Block(MLBlock),
    Return(MLReturn),
    Call(MLCall),
}

/// A call of the function `target` on the arguments `args`, with the type
/// of its value.
#[derive(Debug, PartialEq, Eq)]
pub struct MLCall {
    pub target: MLName,
    pub args: Vec<MLCallArg>,
    pub type_: MLValueType,
}

/// An argument of a call.
#[derive(Debug, PartialEq, Eq)]
pub struct MLCallArg {
    pub arg: MLExpr,
}

/// A block of statements.
#[derive(Debug, PartialEq, Eq)]
pub struct MLBlock {
    pub body: Vec<MLStmt>,
}

/// A conditional, with the type of its value.
#[derive(Debug, PartialEq, Eq)]
pub struct MLIf {
    pub condition: Box<MLExpr>,
    pub body: MLBlock,
    pub else_body: Option<MLBlock>,
    pub type_: MLValueType,
}

/// A return, with or without a value.
#[derive(Debug, PartialEq, Eq)]
pub struct MLReturn {
    pub value: Option<Box<MLExpr>>,
}

/// A statement of the mid-level IR.
#[derive(Debug, PartialEq, Eq)]
pub enum MLStmt {
    Expr(MLExpr),
    Var(MLVar),
    Assignment(MLAssignmentStmt),
    Loop(MLLoopStmt),
}

/// An assignment of `value` to `target`.
#[derive(Debug, PartialEq, Eq)]
pub struct MLAssignmentStmt {
    pub target: MLExpr,
    pub value: MLExpr,
}

/// A loop that runs `block` while `condition` holds.
#[derive(Debug, PartialEq, Eq)]
pub struct MLLoopStmt {
    pub condition: MLExpr,
    pub block: MLBlock,
}

/// A variable, mutable or not, with its type and initial value.
#[derive(Debug, PartialEq, Eq)]
pub struct MLVar {
    pub is_mute: bool,
    pub name: String,
    pub type_: MLType,
    pub value: MLExpr,
}

/// How a literal is printed: a string in double quotes, `null` for null, any
/// other literal as written.
pub open spec fn literal_text(l: MLLiteral) -> Seq<char> {
    match l {
        MLLiteral::Integer { value, .. } => value@,
        MLLiteral::FloatingPoint { value, .. } => value@,
        MLLiteral::String { value, .. } => "\""@ + value@ + "\""@,
        MLLiteral::Boolean { value, .. } => value@,
        MLLiteral::Null { .. } => "null"@,
        MLLiteral::Struct { type_, .. } => value_type_text(type_) + "{}"@,
    }
}

/// The type of a literal.
pub open spec fn literal_type(l: MLLiteral) -> MLValueType {
    match l {
        MLLiteral::Integer { type_, .. } => type_,
        MLLiteral::FloatingPoint { type_, .. } => type_,
        MLLiteral::String { type_, .. } => type_,
        MLLiteral::Boolean { type_, .. } => type_,
        MLLiteral::Null { type_ } => type_,
        MLLiteral::Struct { type_, .. } => type_,
    }
}

/// The type of an expression: that of its name, literal or conditional, the
/// type of a block's value, and `Noting` for a return.
pub open spec fn expr_type(e: MLExpr) -> MLType
    decreases e,
{
    match e {
        MLExpr::Name(n) => n.type_,
        MLExpr::Literal(l) => MLType::Value(literal_type(l)),
        MLExpr::If(i) => MLType::Value(i.type_),
        MLExpr::Block(b) => block_type(b),
        MLExpr::Return(_) => MLType::Value(MLValueType::Primitive(MLPrimitiveType::Noting)),
        MLExpr::Call(c) => MLType::Value(c.type_),
    }
}

/// The type of a block's value: that of its last statement where that is an
/// expression, else `Unit`.
pub open spec fn block_type(b: MLBlock) -> MLType
    decreases b,
{
    let s = b.body@;
    if s.len() > 0 {
        match s[s.len() - 1] {
            MLStmt::Expr(e) => expr_type(e),
            _ => MLType::Value(MLValueType::Primitive(MLPrimitiveType::Unit)),
        }
    } else {
        MLType::Value(MLValueType::Primitive(MLPrimitiveType::Unit))
    }
}

/// What printing an expression writes.
pub open spec fn expr_pieces(e: MLExpr) -> Seq<Piece>
    decreases e,
{
    match e {
        MLExpr::Name(n) => txt(n.name@),
        MLExpr::Literal(l) => literal_pieces(l),
        MLExpr::If(i) => if_pieces(i),
        MLExpr::Block(b) => block_pieces(b),
        MLExpr::Return(r) => return_pieces(r),
        MLExpr::Call(c) => txt(c.target.name@ + "("@) + args_pieces(c.args@) + txt(")"@),
    }
}

/// What printing a literal writes: a struct value as its type's name and
/// its fields in braces; any other literal as its text.
pub open spec fn literal_pieces(l: MLLiteral) -> Seq<Piece>
    decreases l,
{
    match l {
        MLLiteral::Struct { fields, type_ } => txt(value_type_text(type_) + "{"@) + fields_pieces(fields@) + txt("}"@),
        _ => txt(literal_text(l)),
    }
}

/// What printing the fields `s` of a struct value writes: each name, `: `
/// and value, separated by `, `.
pub open spec fn fields_pieces(s: Seq<(String, MLExpr)>) -> Seq<Piece>
    decreases s,
{
    if s.len() == 0 {
        Seq::empty()
    } else if s.len() == 1 {
        txt(s[0].0@ + ": "@) + expr_pieces(s[0].1)
    } else {
        fields_pieces(s.subrange(0, s.len() - 1)) + txt(", "@ + s[s.len() - 1].0@ + ": "@) + expr_pieces(
            s[s.len() - 1].1,
        )
    }
}

/// What printing the arguments `s` of a call writes: each argument,
/// separated by `, `.
pub open spec fn args_pieces(s: Seq<MLCallArg>) -> Seq<Piece>
    decreases s,
{
    if s.len() == 0 {
        Seq::empty()
    } else if s.len() == 1 {
        expr_pieces(s[0].arg)
    } else {
        args_pieces(s.subrange(0, s.len() - 1)) + txt(", "@) + expr_pieces(s[s.len() - 1].arg)
    }
}

/// What printing a block writes: its statements between braces, one per
/// line, each ended by `;` and indented one level deeper.
pub open spec fn block_pieces(b: MLBlock) -> Seq<Piece>
    decreases b,
{
    txt("{\n"@) + up() + stmts_pieces(b.body@) + down() + txt("}"@)
}

/// What printing the statements `s` writes, each followed by `;` and a line
/// break.
pub open spec fn stmts_pieces(s: Seq<MLStmt>) -> Seq<Piece>
    decreases s,
{
    if s.len() == 0 {
        Seq::empty()
    } else {
        stmts_pieces(s.subrange(0, s.len() - 1)) + stmt_pieces(s[s.len() - 1]) + txt(";\n"@)
    }
}

/// The statements `s` between braces, one per line, each ended by `;` and
/// indented one level deeper.
pub open spec fn braced_pieces(s: Seq<MLStmt>) -> Seq<Piece> {
    txt("{\n"@) + up() + stmts_pieces(s) + down() + txt("}"@)
}

/// What printing a conditional writes.
pub open spec fn if_pieces(i: MLIf) -> Seq<Piece>
    decreases i,
{
    txt("if ("@) + expr_pieces(*i.condition) + txt(") "@) + block_pieces(i.body) + match i.else_body {
        Some(b) => txt(" else "@) + block_pieces(b),
        None => Seq::empty(),
    }
}

/// What printing a return writes.
pub open spec fn return_pieces(r: MLReturn) -> Seq<Piece>
    decreases r,
{
    txt("return "@) + match r.value {
        Some(v) => expr_pieces(*v),
        None => Seq::empty(),
    }
}

/// What printing a statement writes.
pub open spec fn stmt_pieces(s: MLStmt) -> Seq<Piece>
    decreases s,
{
    match s {
        MLStmt::Expr(e) => expr_pieces(e),
        MLStmt::Var(v) => var_pieces(v),
        MLStmt::Assignment(a) => assignment_pieces(a),
        MLStmt::Loop(l) => loop_pieces(l),
    }
}

/// What printing an assignment writes.
pub open spec fn assignment_pieces(a: MLAssignmentStmt) -> Seq<Piece>
    decreases a,
{
    expr_pieces(a.target) + txt(" = "@) + expr_pieces(a.value)
}

/// What printing a loop writes.
pub open spec fn loop_pieces(l: MLLoopStmt) -> Seq<Piece>
    decreases l,
{
    txt("while ("@) + expr_pieces(l.condition) + txt(") "@) + block_pieces(l.block)
}

/// The start of a printed variable: `var` or `val`, its name, its type and
/// the `=` before its value.
pub open spec fn var_head(v: MLVar) -> Seq<char> {
    (if v.is_mute { "var "@ } else { "val "@ }) + v.name@ + ":"@ + type_text(v.type_) + " = "@
}

/// What printing a variable writes.
pub open spec fn var_pieces(v: MLVar) -> Seq<Piece>
    decreases v,
{
    txt(var_head(v)) + expr_pieces(v.value)
}

/// Where the level fits along the printing of a run of statements, it fits
/// along the printing of each of its prefixes.
pub proof fn lemma_stmts_prefix_fits(st: FmtState, s: Seq<MLStmt>, j: int)
    requires
        0 <= j <= s.len(),
        fits(st, stmts_pieces(s)),
    ensures
        fits(st, stmts_pieces(s.subrange(0, j))),
    decreases s.len(),
{
    if j == s.len() {
        assert(s.subrange(0, j) =~= s);
    } else {
        let t = s.subrange(0, s.len() - 1);
        lemma_run_append(st, stmts_pieces(t) + stmt_pieces(s[s.len() - 1]), txt(";\n"@));
        lemma_run_append(st, stmts_pieces(t), stmt_pieces(s[s.len() - 1]));
        lemma_stmts_prefix_fits(st, t, j);
        assert(t.subrange(0, j) =~= s.subrange(0, j));
    }
}

/// Printing an expression leaves the indentation level as it found it.
pub proof fn lemma_expr_balanced(e: MLExpr)
    ensures
        level_change(expr_pieces(e)) == 0,
    decreases e,
{
    match e {
        MLExpr::Name(n) => lemma_level_change_single(n.name@),
        MLExpr::Literal(l) => lemma_literal_balanced(l),
        MLExpr::If(i) => lemma_if_balanced(i),
        MLExpr::Block(b) => lemma_block_balanced(b),
        MLExpr::Call(c) => {
            lemma_args_balanced(c.args@);
            let p1 = txt(c.target.name@ + "("@);
            lemma_level_change_append(p1 + args_pieces(c.args@), txt(")"@));
            lemma_level_change_append(p1, args_pieces(c.args@));
            lemma_level_change_single(c.target.name@ + "("@);
            lemma_level_change_single(")"@);
        },
        MLExpr::Return(r) => {
            let rest = match r.value {
                Some(v) => expr_pieces(*v),
                None => Seq::<Piece>::empty(),
            };
            match r.value {
                Some(v) => lemma_expr_balanced(*v),
                None => {},
            }
            lemma_level_change_append(txt("return "@), rest);
            lemma_level_change_single("return "@);
            assert(level_change(Seq::<Piece>::empty()) == 0);
        },
    }
}

/// Printing a literal leaves the indentation level as it found it.
pub proof fn lemma_literal_balanced(l: MLLiteral)
    ensures
        level_change(literal_pieces(l)) == 0,
    decreases l,
{
    match l {
        MLLiteral::Struct { fields, type_ } => {
            lemma_fields_balanced(fields@);
            let p1 = txt(value_type_text(type_) + "{"@);
            lemma_level_change_append(p1 + fields_pieces(fields@), txt("}"@));
            lemma_level_change_append(p1, fields_pieces(fields@));
            lemma_level_change_single(value_type_text(type_) + "{"@);
            lemma_level_change_single("}"@);
        },
        _ => lemma_level_change_single(literal_text(l)),
    }
}

/// Printing the fields of a struct value leaves the indentation level as
/// it found it.
pub proof fn lemma_fields_balanced(s: Seq<(String, MLExpr)>)
    ensures
        level_change(fields_pieces(s)) == 0,
    decreases s,
{
    if s.len() == 1 {
        lemma_expr_balanced(s[0].1);
        lemma_level_change_append(txt(s[0].0@ + ": "@), expr_pieces(s[0].1));
        lemma_level_change_single(s[0].0@ + ": "@);
    } else if s.len() > 1 {
        let t = s.subrange(0, s.len() - 1);
        let sep = txt(", "@ + s[s.len() - 1].0@ + ": "@);
        lemma_fields_balanced(t);
        lemma_expr_balanced(s[s.len() - 1].1);
        lemma_level_change_append(fields_pieces(t) + sep, expr_pieces(s[s.len() - 1].1));
        lemma_level_change_append(fields_pieces(t), sep);
        lemma_level_change_single(", "@ + s[s.len() - 1].0@ + ": "@);
    } else {
        assert(level_change(Seq::<Piece>::empty()) == 0);
    }
}

/// Where the level fits along the printing of a struct value's fields, it
/// fits along the printing of each of their prefixes.
pub proof fn lemma_fields_prefix_fits(st: FmtState, s: Seq<(String, MLExpr)>, j: int)
    requires
        0 <= j <= s.len(),
        fits(st, fields_pieces(s)),
    ensures
        fits(st, fields_pieces(s.subrange(0, j))),
    decreases s.len(),
{
    if j == s.len() {
        assert(s.subrange(0, j) =~= s);
    } else if s.len() == 1 {
        assert(s.subrange(0, j) =~= Seq::<(String, MLExpr)>::empty());
        lemma_run_append(st, txt(s[0].0@ + ": "@), expr_pieces(s[0].1));
        lemma_fits_bounds(st, txt(s[0].0@ + ": "@));
        assert(fits(st, Seq::<Piece>::empty()));
    } else {
        let t = s.subrange(0, s.len() - 1);
        let sep = txt(", "@ + s[s.len() - 1].0@ + ": "@);
        lemma_run_append(st, fields_pieces(t) + sep, expr_pieces(s[s.len() - 1].1));
        lemma_run_append(st, fields_pieces(t), sep);
        lemma_fields_prefix_fits(st, t, j);
        assert(t.subrange(0, j) =~= s.subrange(0, j));
    }
}

/// Printing the arguments of a call leaves the indentation level as it
/// found it.
pub proof fn lemma_args_balanced(s: Seq<MLCallArg>)
    ensures
        level_change(args_pieces(s)) == 0,
    decreases s,
{
    if s.len() == 1 {
        lemma_expr_balanced(s[0].arg);
    } else if s.len() > 1 {
        let t = s.subrange(0, s.len() - 1);
        lemma_args_balanced(t);
        lemma_expr_balanced(s[s.len() - 1].arg);
        lemma_level_change_append(args_pieces(t) + txt(", "@), expr_pieces(s[s.len() - 1].arg));
        lemma_level_change_append(args_pieces(t), txt(", "@));
        lemma_level_change_single(", "@);
    } else {
        assert(level_change(Seq::<Piece>::empty()) == 0);
    }
}

/// Where the level fits along the printing of a call's arguments, it fits
/// along the printing of each of their prefixes.
pub proof fn lemma_args_prefix_fits(st: FmtState, s: Seq<MLCallArg>, j: int)
    requires
        0 <= j <= s.len(),
        fits(st, args_pieces(s)),
    ensures
        fits(st, args_pieces(s.subrange(0, j))),
    decreases s.len(),
{
    if j == s.len() {
        assert(s.subrange(0, j) =~= s);
    } else if s.len() == 1 {
        assert(s.subrange(0, j) =~= Seq::<MLCallArg>::empty());
        lemma_fits_bounds(st, args_pieces(s));
        assert(fits(st, Seq::<Piece>::empty()));
    } else {
        let t = s.subrange(0, s.len() - 1);
        lemma_run_append(st, args_pieces(t) + txt(", "@), expr_pieces(s[s.len() - 1].arg));
        lemma_run_append(st, args_pieces(t), txt(", "@));
        lemma_args_prefix_fits(st, t, j);
        assert(t.subrange(0, j) =~= s.subrange(0, j));
    }
}

/// Printing a block leaves the indentation level as it found it.
pub proof fn lemma_block_balanced(b: MLBlock)
    ensures
        level_change(block_pieces(b)) == 0,
    decreases b,
{
    lemma_stmts_balanced(b.body@);
    lemma_braced_balanced(b.body@);
}

/// Printing statements between braces leaves the indentation level as it
/// found it, where printing the statements alone does.
pub proof fn lemma_braced_balanced(s: Seq<MLStmt>)
    requires
        level_change(stmts_pieces(s)) == 0,
    ensures
        level_change(braced_pieces(s)) == 0,
        level_change(txt("{\n"@) + up() + stmts_pieces(s) + down() + txt("}"@)) == 0,
{
    let body = stmts_pieces(s);
    lemma_level_change_append(txt("{\n"@) + up() + body + down(), txt("}"@));
    lemma_level_change_append(txt("{\n"@) + up() + body, down());
    lemma_level_change_append(txt("{\n"@) + up(), body);
    lemma_level_change_append(txt("{\n"@), up());
    lemma_level_change_single("{\n"@);
    lemma_level_change_single("}"@);
}

/// Printing statements leaves the indentation level as it found it.
pub proof fn lemma_stmts_balanced(s: Seq<MLStmt>)
    ensures
        level_change(stmts_pieces(s)) == 0,
    decreases s,
{
    if s.len() == 0 {
        assert(level_change(Seq::<Piece>::empty()) == 0);
    } else {
        let t = s.subrange(0, s.len() - 1);
        lemma_stmts_balanced(t);
        lemma_stmt_balanced(s[s.len() - 1]);
        lemma_level_change_append(stmts_pieces(t) + stmt_pieces(s[s.len() - 1]), txt(";\n"@));
        lemma_level_change_append(stmts_pieces(t), stmt_pieces(s[s.len() - 1]));
        lemma_level_change_single(";\n"@);
    }
}

/// Printing a conditional leaves the indentation level as it found it.
pub proof fn lemma_if_balanced(i: MLIf)
    ensures
        level_change(if_pieces(i)) == 0,
    decreases i,
{
    let p1 = txt("if ("@);
    let p2 = expr_pieces(*i.condition);
    let p3 = txt(") "@);
    let p4 = block_pieces(i.body);
    let p5 = match i.else_body {
        Some(b) => txt(" else "@) + block_pieces(b),
        None => Seq::<Piece>::empty(),
    };
    lemma_expr_balanced(*i.condition);
    lemma_block_balanced(i.body);
    match i.else_body {
        Some(b) => {
            lemma_block_balanced(b);
            lemma_level_change_append(txt(" else "@), block_pieces(b));
            lemma_level_change_single(" else "@);
        },
        None => {
            assert(level_change(Seq::<Piece>::empty()) == 0);
        },
    }
    lemma_level_change_append(p1 + p2 + p3 + p4, p5);
    lemma_level_change_append(p1 + p2 + p3, p4);
    lemma_level_change_append(p1 + p2, p3);
    lemma_level_change_append(p1, p2);
    lemma_level_change_single("if ("@);
    lemma_level_change_single(") "@);
}

/// Printing a statement leaves the indentation level as it found it.
pub proof fn lemma_stmt_balanced(s: MLStmt)
    ensures
        level_change(stmt_pieces(s)) == 0,
    decreases s,
{
    match s {
        MLStmt::Expr(e) => lemma_expr_balanced(e),
        MLStmt::Var(v) => {
            lemma_expr_balanced(v.value);
            lemma_level_change_append(txt(var_head(v)), expr_pieces(v.value));
            lemma_level_change_single(var_head(v));
        },
        MLStmt::Assignment(a) => {
            lemma_expr_balanced(a.target);
            lemma_expr_balanced(a.value);
            lemma_level_change_append(expr_pieces(a.target) + txt(" = "@), expr_pieces(a.value));
            lemma_level_change_append(expr_pieces(a.target), txt(" = "@));
            lemma_level_change_single(" = "@);
        },
        MLStmt::Loop(l) => {
            lemma_expr_balanced(l.condition);
            lemma_block_balanced(l.block);
            let p1 = txt("while ("@);
            let p2 = expr_pieces(l.condition);
            let p3 = txt(") "@);
            lemma_level_change_append(p1 + p2 + p3, block_pieces(l.block));
            lemma_level_change_append(p1 + p2, p3);
            lemma_level_change_append(p1, p2);
            lemma_level_change_single("while ("@);
            lemma_level_change_single(") "@);
        },
    }
}

/// Printing a statement ends at the indentation level it started at, so a
/// printer nested in another hands the formatter back as it got it.
pub proof fn law_statement_printing_keeps_indentation(st: FmtState, s: MLStmt)
    ensures
        run(st, stmt_pieces(s)).1 == st.1,
        run(st, stmt_pieces(s)).2 == st.2,
{
    lemma_stmt_balanced(s);
    lemma_run_level(st, stmt_pieces(s));
}

/// Printing an expression ends at the indentation level it started at.
pub proof fn law_expr_printing_keeps_indentation(st: FmtState, e: MLExpr)
    ensures
        run(st, expr_pieces(e)).1 == st.1,
        run(st, expr_pieces(e)).2 == st.2,
{
    lemma_expr_balanced(e);
    lemma_run_level(st, expr_pieces(e));
}

impl MLLiteral {
    /// The printed form of a literal other than a struct value with fields.
    pub fn to_text(&self) -> (r: String)
        requires
            *self is Struct ==> self->Struct_fields@.len() == 0,
        ensures
            r@ == literal_text(*self),
    {
        match self {
            MLLiteral::Integer { value, .. } => value.clone(),
            MLLiteral::FloatingPoint { value, .. } => value.clone(),
            MLLiteral::String { value, .. } => {
                let mut r = string_of("\"");
                append_str(&mut r, value.as_str());
                append_str(&mut r, "\"");
                r
            },
            MLLiteral::Boolean { value, .. } => value.clone(),
            MLLiteral::Null { .. } => string_of("null"),
            MLLiteral::Struct { type_, .. } => {
                let mut r = type_.to_text();
                append_str(&mut r, "{}");
                r
            },
        }
    }

    /// The type of this literal.
    pub fn type_(&self) -> (r: MLValueType)
        ensures
            same_value_type(r, literal_type(*self)),
    {
        match self {
            MLLiteral::Integer { type_, .. } => type_.duplicate(),
            MLLiteral::FloatingPoint { type_, .. } => type_.duplicate(),
            MLLiteral::String { type_, .. } => type_.duplicate(),
            MLLiteral::Boolean { type_, .. } => type_.duplicate(),
            MLLiteral::Null { type_ } => type_.duplicate(),
            MLLiteral::Struct { type_, .. } => type_.duplicate(),
        }
    }

    /// Prints this literal, which is not a struct value.
    pub fn fmt(&self, f: &mut Formatter)
        requires
            !(*self is Struct),
        ensures
            final(f).state() == run(old(f).state(), literal_pieces(*self)),
    {
        let t = self.to_text();
        f.write_str(t.as_str());
    }
}

/// Prints the struct value of type `type_` built from `fields`.
pub fn fmt_struct_value(fields: &Vec<(String, MLExpr)>, type_: &MLValueType, f: &mut Formatter)
    requires
        fits(old(f).state(), txt(value_type_text(*type_) + "{"@) + fields_pieces(fields@) + txt("}"@)),
    ensures
        final(f).state() == run(old(f).state(), txt(value_type_text(*type_) + "{"@) + fields_pieces(fields@) + txt("}"@)),
    decreases fields@,
{
    let ghost s0 = f.state();
    let ghost p1 = txt(value_type_text(*type_) + "{"@);
    let ghost body = fields_pieces(fields@);
    proof {
        lemma_run_append(s0, p1 + body, txt("}"@));
        lemma_run_append(s0, p1, body);
    }
    let mut head = type_.to_text();
    append_str(&mut head, "{");
    f.write_str(head.as_str());
    let ghost s1 = f.state();
    let mut i: usize = 0;
    while i < fields.len()
        invariant
            i <= fields@.len(),
            s1 == run(s0, p1),
            body == fields_pieces(fields@),
            fits(s1, body),
            f.state() == run(s1, fields_pieces(fields@.subrange(0, i as int))),
        decreases fields@.len() - i,
    {
        proof {
            let next = fields@.subrange(0, i + 1);
            assert(next.subrange(0, i as int) =~= fields@.subrange(0, i as int));
            assert(next[i as int] == fields@[i as int]);
            lemma_fields_prefix_fits(s1, fields@, i + 1);
            let a = fields_pieces(fields@.subrange(0, i as int));
            let e = expr_pieces(fields@[i as int].1);
            if i == 0 {
                assert(fields@.subrange(0, 0) =~= Seq::<(String, MLExpr)>::empty());
                let h = txt(fields@[0].0@ + ": "@);
                assert(fields_pieces(next) == h + e);
                assert(Seq::<Piece>::empty() + (h + e) =~= h + e);
                lemma_run_append(s1, h, e);
            } else {
                let sep = txt(", "@ + fields@[i as int].0@ + ": "@);
                assert(fields_pieces(next) == a + sep + e);
                lemma_run_append(s1, a + sep, e);
                lemma_run_append(s1, a, sep);
            }
            assert(decreases_to!(fields@ => fields@[i as int]));
        }
        let mut sep = if i > 0 {
            string_of(", ")
        } else {
            String::new()
        };
        append_str(&mut sep, fields[i].0.as_str());
        append_str(&mut sep, ": ");
        proof {
            if i > 0 {
                assert(sep@ =~= ", "@ + fields@[i as int].0@ + ": "@);
            } else {
                assert(sep@ =~= fields@[i as int].0@ + ": "@);
            }
        }
        f.write_str(sep.as_str());
        fields[i].1.fmt(f);
        i = i + 1;
    }
    assert(fields@.subrange(0, fields@.len() as int) =~= fields@);
    f.write_str("}");
}

impl MLExpr {
    /// The type of this expression.
    pub fn type_(&self) -> (r: MLType)
        ensures
            same_ml_type(r, expr_type(*self)),
        decreases *self,
    {
        match self {
            MLExpr::Name(n) => n.type_.duplicate(),
            MLExpr::Literal(l) => MLType::Value(l.type_()),
            MLExpr::If(i) => MLType::Value(i.type_.duplicate()),
            MLExpr::Block(b) => b.type_(),
            MLExpr::Return(r) => MLType::Value(r.type_()),
            MLExpr::Call(c) => MLType::Value(c.type_.duplicate()),
        }
    }

    /// Prints this expression.
    pub fn fmt(&self, f: &mut Formatter)
        requires
            fits(old(f).state(), expr_pieces(*self)),
        ensures
            final(f).state() == run(old(f).state(), expr_pieces(*self)),
        decreases *self,
    {
        match self {
            MLExpr::Name(n) => f.write_str(n.name.as_str()),
            MLExpr::Literal(l) => match l {
                MLLiteral::Struct { fields, type_ } => {
                    proof {
                        assert(decreases_to!(*self => *l));
                        assert(decreases_to!(*self => fields@));
                    }
                    fmt_struct_value(fields, type_, f)
                },
                _ => l.fmt(f),
            },
            MLExpr::If(i) => i.fmt(f),
            MLExpr::Block(b) => b.fmt(f),
            MLExpr::Return(r) => r.fmt(f),
            MLExpr::Call(c) => c.fmt(f),
        }
    }
}

impl MLCall {
    /// Prints this call: the function's name, then the arguments in
    /// brackets, separated by `, `.
    pub fn fmt(&self, f: &mut Formatter)
        requires
            fits(old(f).state(), expr_pieces(MLExpr::Call(*self))),
        ensures
            final(f).state() == run(old(f).state(), expr_pieces(MLExpr::Call(*self))),
        decreases *self,
    {
        let ghost s0 = f.state();
        let ghost p1 = txt(self.target.name@ + "("@);
        let ghost body = args_pieces(self.args@);
        proof {
            lemma_run_append(s0, p1 + body, txt(")"@));
            lemma_run_append(s0, p1, body);
        }
        let mut head = self.target.name.clone();
        append_str(&mut head, "(");
        f.write_str(head.as_str());
        let ghost s1 = f.state();
        let mut i: usize = 0;
        while i < self.args.len()
            invariant
                i <= self.args@.len(),
                s1 == run(s0, p1),
                body == args_pieces(self.args@),
                fits(s1, body),
                f.state() == run(s1, args_pieces(self.args@.subrange(0, i as int))),
            decreases self.args@.len() - i,
        {
            proof {
                let next = self.args@.subrange(0, i + 1);
                assert(next.subrange(0, i as int) =~= self.args@.subrange(0, i as int));
                assert(next[i as int] == self.args@[i as int]);
                lemma_args_prefix_fits(s1, self.args@, i + 1);
                let a = args_pieces(self.args@.subrange(0, i as int));
                let e = expr_pieces(self.args@[i as int].arg);
                if i == 0 {
                    assert(self.args@.subrange(0, 0) =~= Seq::<MLCallArg>::empty());
                    assert(args_pieces(next) == e);
                    assert(Seq::<Piece>::empty() + e =~= e);
                    lemma_run_append(s1, Seq::<Piece>::empty(), e);
                } else {
                    assert(args_pieces(next) == a + txt(", "@) + e);
                    lemma_run_append(s1, a + txt(", "@), e);
                    lemma_run_append(s1, a, txt(", "@));
                }
                assert(decreases_to!(*self => self.args));
                assert(decreases_to!(self.args@ => self.args@[i as int]));
            }
            if i > 0 {
                f.write_str(", ");
            }
            self.args[i].arg.fmt(f);
            i = i + 1;
        }
        assert(self.args@.subrange(0, self.args@.len() as int) =~= self.args@);
        f.write_str(")");
    }
}

impl MLBlock {
    /// The type of the block's value: that of its last statement where that
    /// is an expression, else `Unit`.
    pub fn type_(&self) -> (r: MLType)
        ensures
            same_ml_type(r, block_type(*self)),
        decreases *self,
    {
        let n = self.body.len();
        if n > 0 {
            assert(decreases_to!(*self => self.body@[n - 1]));
            match &self.body[n - 1] {
                MLStmt::Expr(e) => e.type_(),
                _ => MLType::Value(MLValueType::Primitive(MLPrimitiveType::Unit)),
            }
        } else {
            MLType::Value(MLValueType::Primitive(MLPrimitiveType::Unit))
        }
    }

    /// Prints this block.
    pub fn fmt(&self, f: &mut Formatter)
        requires
            fits(old(f).state(), block_pieces(*self)),
        ensures
            final(f).state() == run(old(f).state(), block_pieces(*self)),
        decreases *self,
    {
        assert(decreases_to!(*self => self.body@));
        fmt_braced(&self.body, f);
    }
}

/// Prints the statements `stmts` between braces, one per line, each ended by
/// `;` and indented one level deeper.
pub fn fmt_braced(stmts: &Vec<MLStmt>, f: &mut Formatter)
    requires
        fits(old(f).state(), braced_pieces(stmts@)),
    ensures
        final(f).state() == run(old(f).state(), braced_pieces(stmts@)),
    decreases stmts@,
{
    let ghost s0 = f.state();
    let ghost opening = txt("{\n"@) + up();
    let ghost body = stmts_pieces(stmts@);
    proof {
        lemma_run_append(s0, opening + body + down(), txt("}"@));
        lemma_run_append(s0, opening + body, down());
        lemma_run_append(s0, opening, body);
        lemma_run_append(s0, txt("{\n"@), up());
        lemma_run_single(run(s0, txt("{\n"@)), "{\n"@);
    }
    f.write_str("{\n");
    f.indent_level_up();
    let ghost s1 = f.state();
    let mut i: usize = 0;
    while i < stmts.len()
        invariant
            i <= stmts@.len(),
            s1 == run(s0, opening),
            fits(s1, stmts_pieces(stmts@)),
            f.state() == run(s1, stmts_pieces(stmts@.subrange(0, i as int))),
        decreases stmts@.len() - i,
    {
        proof {
            let next = stmts@.subrange(0, i + 1);
            assert(next.subrange(0, i as int) =~= stmts@.subrange(0, i as int));
            assert(next[i as int] == stmts@[i as int]);
            let a = stmts_pieces(stmts@.subrange(0, i as int));
            let b = stmt_pieces(stmts@[i as int]);
            assert(stmts_pieces(next) == a + b + txt(";\n"@));
            lemma_stmts_prefix_fits(s1, stmts@, i + 1);
            lemma_run_append(s1, a + b, txt(";\n"@));
            lemma_run_append(s1, a, b);
            assert(decreases_to!(stmts@ => stmts@[i as int]));
        }
        stmts[i].fmt(f);
        f.write_str(";\n");
        i = i + 1;
    }
    assert(stmts@.subrange(0, stmts@.len() as int) =~= stmts@);
    proof {
        lemma_run_single(run(s0, opening + body), "}"@);
    }
    f.indent_level_down();
    f.write_str("}");
}

impl MLIf {
    /// Prints this conditional.
    pub fn fmt(&self, f: &mut Formatter)
        requires
            fits(old(f).state(), if_pieces(*self)),
        ensures
            final(f).state() == run(old(f).state(), if_pieces(*self)),
        decreases *self,
    {
        let ghost s0 = f.state();
        let ghost p1 = txt("if ("@);
        let ghost p2 = expr_pieces(*self.condition);
        let ghost p3 = txt(") "@);
        let ghost p4 = block_pieces(self.body);
        let ghost p5 = match &self.else_body {
            Some(b) => txt(" else "@) + block_pieces(*b),
            None => Seq::<Piece>::empty(),
        };
        proof {
            lemma_run_append(s0, p1 + p2 + p3 + p4, p5);
            lemma_run_append(s0, p1 + p2 + p3, p4);
            lemma_run_append(s0, p1 + p2, p3);
            lemma_run_append(s0, p1, p2);
        }
        f.write_str("if (");
        self.condition.fmt(f);
        f.write_str(") ");
        self.body.fmt(f);
        match &self.else_body {
            Some(b) => {
                proof {
                    lemma_run_append(run(s0, p1 + p2 + p3 + p4), txt(" else "@), block_pieces(*b));
                }
                f.write_str(" else ");
                b.fmt(f);
            },
            None => {
                assert(p1 + p2 + p3 + p4 + p5 =~= p1 + p2 + p3 + p4);
            },
        }
    }
}

impl MLReturn {
    /// A return of the value of `expr`.
    pub fn new(expr: MLExpr) -> (r: Self)
        ensures
            r.value == Some(Box::new(expr)),
    {
        MLReturn { value: Some(Box::new(expr)) }
    }

    /// The type of a return: `Noting`.
    pub fn type_(&self) -> (r: MLValueType)
        ensures
            r == MLValueType::Primitive(MLPrimitiveType::Noting),
    {
        MLValueType::Primitive(MLPrimitiveType::Noting)
    }

    /// Prints this return.
    pub fn fmt(&self, f: &mut Formatter)
        requires
            fits(old(f).state(), return_pieces(*self)),
        ensures
            final(f).state() == run(old(f).state(), return_pieces(*self)),
        decreases *self,
    {
        let ghost s0 = f.state();
        let ghost rest = match &self.value {
            Some(v) => expr_pieces(**v),
            None => Seq::<Piece>::empty(),
        };
        proof {
            lemma_run_append(s0, txt("return "@), rest);
        }
        f.write_str("return ");
        match &self.value {
            Some(v) => v.fmt(f),
            None => {
                assert(txt("return "@) + rest =~= txt("return "@));
            },
        }
    }
}

impl MLStmt {
    /// Prints this statement.
    pub fn fmt(&self, f: &mut Formatter)
        requires
            fits(old(f).state(), stmt_pieces(*self)),
        ensures
            final(f).state() == run(old(f).state(), stmt_pieces(*self)),
        decreases *self,
    {
        match self {
            MLStmt::Expr(e) => e.fmt(f),
            MLStmt::Var(v) => v.fmt(f),
            MLStmt::Assignment(a) => a.fmt(f),
            MLStmt::Loop(l) => l.fmt(f),
        }
    }
}

impl MLAssignmentStmt {
    /// Prints this assignment.
    pub fn fmt(&self, f: &mut Formatter)
        requires
            fits(old(f).state(), assignment_pieces(*self)),
        ensures
            final(f).state() == run(old(f).state(), assignment_pieces(*self)),
        decreases *self,
    {
        let ghost s0 = f.state();
        let ghost p1 = expr_pieces(self.target);
        proof {
            lemma_run_append(s0, p1 + txt(" = "@), expr_pieces(self.value));
            lemma_run_append(s0, p1, txt(" = "@));
        }
        self.target.fmt(f);
        f.write_str(" = ");
        self.value.fmt(f);
    }
}

impl MLLoopStmt {
    /// Prints this loop.
    pub fn fmt(&self, f: &mut Formatter)
        requires
            fits(old(f).state(), loop_pieces(*self)),
        ensures
            final(f).state() == run(old(f).state(), loop_pieces(*self)),
        decreases *self,
    {
        let ghost s0 = f.state();
        let ghost p1 = txt("while ("@);
        let ghost p2 = expr_pieces(self.condition);
        let ghost p3 = txt(") "@);
        proof {
            lemma_run_append(s0, p1 + p2 + p3, block_pieces(self.block));
            lemma_run_append(s0, p1 + p2, p3);
            lemma_run_append(s0, p1, p2);
        }
        f.write_str("while (");
        self.condition.fmt(f);
        f.write_str(") ");
        self.block.fmt(f);
    }
}

impl MLVar {
    /// The printed start of this variable, up to its value.
    pub fn head_text(&self) -> (r: String)
        ensures
            r@ == var_head(*self),
    {
        let mut r = if self.is_mute {
            string_of("var ")
        } else {
            string_of("val ")
        };
        append_str(&mut r, self.name.as_str());
        append_str(&mut r, ":");
        let t = self.type_.to_text();
        append_str(&mut r, t.as_str());
        append_str(&mut r, " = ");
        r
    }

    /// Prints this variable.
    pub fn fmt(&self, f: &mut Formatter)
        requires
            fits(old(f).state(), var_pieces(*self)),
        ensures
            final(f).state() == run(old(f).state(), var_pieces(*self)),
        decreases *self,
    {
        proof {
            lemma_run_append(f.state(), txt(var_head(*self)), expr_pieces(self.value));
        }
        let head = self.head_text();
        f.write_str(head.as_str());
        self.value.fmt(f);
    }
}

} // verus!
