//! The abstract syntax tree, and its mathematical model.
//!
//! The executable types mirror the grammar: four expression levels
//! (`TopExpr`, `MathExpr`, `ComparisonExpr`, `ShortExpr`), each a closed
//! sum. Every node built by the parser carries a `Span`. Beside each
//! executable type stands a model type (suffix `S`) whose lists are
//! `Seq` and whose names are `Seq<u8>`; the `*_view` functions map one to
//! the other, and all contracts of the parser, checker and evaluator
//! speak of the model.

use vstd::prelude::*;

use crate::lexer::Span;

verus! {

broadcast use vstd::std_specs::vec::group_vec_axioms;

/// An identifier's text.
#[derive(Debug)]
pub struct Ident(pub Vec<u8>);

/// A node together with the span it was parsed from.
#[derive(Debug)]
pub struct Spanned<E> {
    pub span: Span,
    pub expr: E,
}

pub type Body = Vec<Spanned<TopExpr>>;

pub type BoxedExpr = Box<Spanned<Expr>>;

/// A declared type: a plain name, or a name with type parameters.
#[derive(Debug)]
pub enum Type {
    Simple(Ident),
    Generic(Ident, Vec<Type>),
}

/// One function declaration.
#[derive(Debug)]
pub struct Fun {
    pub name: Ident,
    pub ret_type: Option<Type>,
    pub args: Vec<(Ident, Type)>,
    pub body: Body,
}

/// A whole source file: its function declarations in order.
#[derive(Debug)]
pub struct Program {
    pub functions: Vec<Fun>,
}

/// Any expression, at one of the four levels.
#[derive(Debug)]
pub enum Expr {
    TopExpr(TopExpr),
    MathExpr(MathExpr),
    ComparisonExpr(ComparisonExpr),
    ShortExpr(ShortExpr),
}

/// Statement-shaped expressions: what a body line can hold.
#[derive(Debug)]
pub enum TopExpr {
    ControlExpr(ControlExpr),
    Binding(Binding),
    Assign(Assign),
    Call(Call),
    SetByIndex(SetByIndex),
}

#[derive(Debug)]
pub enum ControlExpr {
    If(If),
    For(For),
    While(While),
    Return(Return),
}

#[derive(Debug)]
pub struct Return(pub Option<BoxedExpr>);

#[derive(Debug)]
pub struct For {
    pub var: Ident,
    pub iterable: BoxedExpr,
    pub body: Body,
}

#[derive(Debug)]
pub struct While {
    pub expr: BoxedExpr,
    pub body: Body,
}

#[derive(Debug)]
pub struct If {
    pub expr: BoxedExpr,
    pub body: Body,
    pub else_branch: Body,
}

/// Arithmetic-level expressions. The variant order is the parser's try
/// order: operators listed earlier bind looser.
#[derive(Debug)]
pub enum MathExpr {
    Neg(Neg),
    BoolNeg(BoolNeg),
    Range(Range),
    Sub(Sub),
    Add(Add),
    Mul(Mul),
    Div(Div),
    Parens(Parens),
}

#[derive(Debug)]
pub struct Parens(pub BoxedExpr);

#[derive(Debug)]
pub struct Neg(pub BoxedExpr);

#[derive(Debug)]
pub struct BoolNeg(pub BoxedExpr);

#[derive(Debug)]
pub struct Range {
    pub left: BoxedExpr,
    pub right: BoxedExpr,
}

#[derive(Debug)]
pub struct Sub {
    pub left: BoxedExpr,
    pub right: BoxedExpr,
}

#[derive(Debug)]
pub struct Add {
    pub left: BoxedExpr,
    pub right: BoxedExpr,
}

#[derive(Debug)]
pub struct Mul {
    pub left: BoxedExpr,
    pub right: BoxedExpr,
}

#[derive(Debug)]
pub struct Div {
    pub left: BoxedExpr,
    pub right: BoxedExpr,
}

/// Comparison-level expressions, in parser try order.
#[derive(Debug)]
pub enum ComparisonExpr {
    And(And),
    Or(Or),
    LessThan(LessThan),
    MoreThan(MoreThan),
}

#[derive(Debug)]
pub struct And {
    pub left: BoxedExpr,
    pub right: BoxedExpr,
}

#[derive(Debug)]
pub struct Or {
    pub left: BoxedExpr,
    pub right: BoxedExpr,
}

#[derive(Debug)]
pub struct LessThan {
    pub left: BoxedExpr,
    pub right: BoxedExpr,
}

#[derive(Debug)]
pub struct MoreThan {
    pub left: BoxedExpr,
    pub right: BoxedExpr,
}

/// The innermost expressions.
#[derive(Debug)]
pub enum ShortExpr {
    Ident(Ident),
    GetByIndex(GetByIndex),
    Literal(Literal),
}

#[derive(Debug)]
pub struct GetByIndex {
    pub ident: Spanned<Ident>,
    pub index: BoxedExpr,
}

/// A literal value. Text is held as bytes; a character literal holds the
/// byte it denotes.
#[derive(Debug)]
pub enum Literal {
    Int(i32),
    Bool(bool),
    Char(u8),
    String(Vec<u8>),
}

/// `val x = e` or `var x = e`.
#[derive(Debug)]
pub struct Binding {
    pub is_mut: bool,
    pub set: Assign,
}

/// `x = e`.
#[derive(Debug)]
pub struct Assign {
    pub name: Spanned<Ident>,
    pub expr: BoxedExpr,
}

/// `f(e1, ..., en)`.
#[derive(Debug)]
pub struct Call {
    pub name: Spanned<Ident>,
    pub args: Vec<Spanned<Expr>>,
}

/// `a[i] = e`.
#[derive(Debug)]
pub struct SetByIndex {
    pub get_by_index: GetByIndex,
    pub expr: BoxedExpr,
}

// ------------------------------------------------------------------
// The model: the same shapes over Seq and Seq<u8>.
// ------------------------------------------------------------------

pub enum ExprS {
    TopExpr(TopExprS),
    MathExpr(MathExprS),
    ComparisonExpr(ComparisonExprS),
    ShortExpr(ShortExprS),
}

pub enum TopExprS {
    ControlExpr(ControlExprS),
    Binding(BindingS),
    Assign(AssignS),
    Call(CallS),
    SetByIndex(SetByIndexS),
}

pub enum ControlExprS {
    If(IfS),
    For(ForS),
    While(WhileS),
    Return(ReturnS),
}

pub struct ReturnS(pub Option<Box<Spanned<ExprS>>>);

pub struct ForS {
    pub var: Seq<u8>,
    pub iterable: Box<Spanned<ExprS>>,
    pub body: Seq<Spanned<TopExprS>>,
}

pub struct WhileS {
    pub expr: Box<Spanned<ExprS>>,
    pub body: Seq<Spanned<TopExprS>>,
}

pub struct IfS {
    pub expr: Box<Spanned<ExprS>>,
    pub body: Seq<Spanned<TopExprS>>,
    pub else_branch: Seq<Spanned<TopExprS>>,
}

pub enum MathExprS {
    Neg(Box<Spanned<ExprS>>),
    BoolNeg(Box<Spanned<ExprS>>),
    Range(BinS),
    Sub(BinS),
    Add(BinS),
    Mul(BinS),
    Div(BinS),
    Parens(Box<Spanned<ExprS>>),
}

/// One binary node of the model: both operand trees.
pub struct BinS {
    pub left: Box<Spanned<ExprS>>,
    pub right: Box<Spanned<ExprS>>,
}

pub enum ComparisonExprS {
    And(BinS),
    Or(BinS),
    LessThan(BinS),
    MoreThan(BinS),
}

pub enum ShortExprS {
    Ident(Seq<u8>),
    GetByIndex(GetByIndexS),
    Literal(LiteralS),
}

pub struct GetByIndexS {
    pub ident: Spanned<Seq<u8>>,
    pub index: Box<Spanned<ExprS>>,
}

pub enum LiteralS {
    Int(i32),
    Bool(bool),
    Char(u8),
    String(Seq<u8>),
}

pub struct BindingS {
    pub is_mut: bool,
    pub set: AssignS,
}

pub struct AssignS {
    pub name: Spanned<Seq<u8>>,
    pub expr: Box<Spanned<ExprS>>,
}

pub struct CallS {
    pub name: Spanned<Seq<u8>>,
    pub args: Seq<Spanned<ExprS>>,
}

pub struct SetByIndexS {
    pub get_by_index: GetByIndexS,
    pub expr: Box<Spanned<ExprS>>,
}

pub enum TypeS {
    Simple(Seq<u8>),
    Generic(Seq<u8>, Seq<TypeS>),
}

pub struct FunS {
    pub name: Seq<u8>,
    pub ret_type: Option<TypeS>,
    pub args: Seq<(Seq<u8>, TypeS)>,
    pub body: Seq<Spanned<TopExprS>>,
}

pub struct ProgramS {
    pub functions: Seq<FunS>,
}

// ------------------------------------------------------------------
// Views from the executable tree into the model.
// ------------------------------------------------------------------

pub open spec fn ident_view(id: Ident) -> Seq<u8> {
    id.0@
}

pub open spec fn spanned_ident_view(si: Spanned<Ident>) -> Spanned<Seq<u8>> {
    Spanned { span: si.span, expr: si.expr.0@ }
}

pub open spec fn literal_view(l: Literal) -> LiteralS {
    match l {
        Literal::Int(v) => LiteralS::Int(v),
        Literal::Bool(v) => LiteralS::Bool(v),
        Literal::Char(v) => LiteralS::Char(v),
        Literal::String(v) => LiteralS::String(v@),
    }
}

pub open spec fn sp_expr_view(se: Spanned<Expr>) -> Spanned<ExprS> {
    Spanned { span: se.span, expr: expr_view(se.expr) }
}

pub open spec fn sp_top_view(st: Spanned<TopExpr>) -> Spanned<TopExprS> {
    Spanned { span: st.span, expr: top_view(st.expr) }
}

pub open spec fn expr_view(e: Expr) -> ExprS
    decreases e,
{
    match e {
        Expr::TopExpr(t) => ExprS::TopExpr(top_view(t)),
        Expr::MathExpr(m) => ExprS::MathExpr(math_view(m)),
        Expr::ComparisonExpr(c) => ExprS::ComparisonExpr(cmp_view(c)),
        Expr::ShortExpr(s) => ExprS::ShortExpr(short_view(s)),
    }
}

pub open spec fn boxed_view(b: Box<Spanned<Expr>>) -> Box<Spanned<ExprS>>
    decreases b,
{
    Box::new(Spanned { span: b.span, expr: expr_view(b.expr) })
}

pub open spec fn body_view(b: Seq<Spanned<TopExpr>>) -> Seq<Spanned<TopExprS>>
    decreases b,
{
    if b.len() == 0 {
        Seq::empty()
    } else {
        seq![Spanned { span: b.first().span, expr: top_view(b.first().expr) }] + body_view(
            b.drop_first(),
        )
    }
}

pub open spec fn args_view(a: Seq<Spanned<Expr>>) -> Seq<Spanned<ExprS>>
    decreases a,
{
    if a.len() == 0 {
        Seq::empty()
    } else {
        seq![Spanned { span: a.first().span, expr: expr_view(a.first().expr) }] + args_view(
            a.drop_first(),
        )
    }
}

pub open spec fn top_view(t: TopExpr) -> TopExprS
    decreases t,
{
    match t {
        TopExpr::ControlExpr(c) => TopExprS::ControlExpr(control_view(c)),
        TopExpr::Binding(b) => TopExprS::Binding(
            BindingS { is_mut: b.is_mut, set: assign_view(b.set) },
        ),
        TopExpr::Assign(s) => TopExprS::Assign(assign_view(s)),
        TopExpr::Call(c) => TopExprS::Call(call_view(c)),
        TopExpr::SetByIndex(s) => TopExprS::SetByIndex(
            SetByIndexS { get_by_index: gbi_view(s.get_by_index), expr: boxed_view(s.expr) },
        ),
    }
}

pub open spec fn assign_view(s: Assign) -> AssignS
    decreases s,
{
    AssignS { name: spanned_ident_view(s.name), expr: boxed_view(s.expr) }
}

pub open spec fn call_view(c: Call) -> CallS
    decreases c,
{
    CallS { name: spanned_ident_view(c.name), args: args_view(c.args@) }
}

pub open spec fn gbi_view(g: GetByIndex) -> GetByIndexS
    decreases g,
{
    GetByIndexS { ident: spanned_ident_view(g.ident), index: boxed_view(g.index) }
}

pub open spec fn control_view(c: ControlExpr) -> ControlExprS
    decreases c,
{
    match c {
        ControlExpr::If(e) => ControlExprS::If(
            IfS {
                expr: boxed_view(e.expr),
                body: body_view(e.body@),
                else_branch: body_view(e.else_branch@),
            },
        ),
        ControlExpr::For(e) => ControlExprS::For(
            ForS { var: e.var.0@, iterable: boxed_view(e.iterable), body: body_view(e.body@) },
        ),
        ControlExpr::While(e) => ControlExprS::While(
            WhileS { expr: boxed_view(e.expr), body: body_view(e.body@) },
        ),
        ControlExpr::Return(e) => ControlExprS::Return(
            ReturnS(
                match e.0 {
                    Some(b) => Some(boxed_view(b)),
                    None => None,
                },
            ),
        ),
    }
}

pub open spec fn math_view(m: MathExpr) -> MathExprS
    decreases m,
{
    match m {
        MathExpr::Neg(e) => MathExprS::Neg(boxed_view(e.0)),
        MathExpr::BoolNeg(e) => MathExprS::BoolNeg(boxed_view(e.0)),
        MathExpr::Range(e) => MathExprS::Range(
            BinS { left: boxed_view(e.left), right: boxed_view(e.right) },
        ),
        MathExpr::Sub(e) => MathExprS::Sub(
            BinS { left: boxed_view(e.left), right: boxed_view(e.right) },
        ),
        MathExpr::Add(e) => MathExprS::Add(
            BinS { left: boxed_view(e.left), right: boxed_view(e.right) },
        ),
        MathExpr::Mul(e) => MathExprS::Mul(
            BinS { left: boxed_view(e.left), right: boxed_view(e.right) },
        ),
        MathExpr::Div(e) => MathExprS::Div(
            BinS { left: boxed_view(e.left), right: boxed_view(e.right) },
        ),
        MathExpr::Parens(e) => MathExprS::Parens(boxed_view(e.0)),
    }
}

pub open spec fn cmp_view(c: ComparisonExpr) -> ComparisonExprS
    decreases c,
{
    match c {
        ComparisonExpr::And(e) => ComparisonExprS::And(
            BinS { left: boxed_view(e.left), right: boxed_view(e.right) },
        ),
        ComparisonExpr::Or(e) => ComparisonExprS::Or(
            BinS { left: boxed_view(e.left), right: boxed_view(e.right) },
        ),
        ComparisonExpr::LessThan(e) => ComparisonExprS::LessThan(
            BinS { left: boxed_view(e.left), right: boxed_view(e.right) },
        ),
        ComparisonExpr::MoreThan(e) => ComparisonExprS::MoreThan(
            BinS { left: boxed_view(e.left), right: boxed_view(e.right) },
        ),
    }
}

pub open spec fn short_view(s: ShortExpr) -> ShortExprS
    decreases s,
{
    match s {
        ShortExpr::Ident(id) => ShortExprS::Ident(id.0@),
        ShortExpr::GetByIndex(g) => ShortExprS::GetByIndex(gbi_view(g)),
        ShortExpr::Literal(l) => ShortExprS::Literal(literal_view(l)),
    }
}

pub open spec fn type_view(t: Type) -> TypeS
    decreases t,
{
    match t {
        Type::Simple(id) => TypeS::Simple(id.0@),
        Type::Generic(id, params) => TypeS::Generic(id.0@, types_view(params@)),
    }
}

pub open spec fn types_view(ts: Seq<Type>) -> Seq<TypeS>
    decreases ts,
{
    if ts.len() == 0 {
        Seq::empty()
    } else {
        seq![type_view(ts.first())] + types_view(ts.drop_first())
    }
}

pub open spec fn params_view(ps: Seq<(Ident, Type)>) -> Seq<(Seq<u8>, TypeS)>
    decreases ps,
{
    if ps.len() == 0 {
        Seq::empty()
    } else {
        seq![(ps.first().0.0@, type_view(ps.first().1))] + params_view(ps.drop_first())
    }
}

pub open spec fn fun_view(f: Fun) -> FunS
    decreases f,
{
    FunS {
        name: f.name.0@,
        ret_type: match f.ret_type {
            Some(t) => Some(type_view(t)),
            None => None,
        },
        args: params_view(f.args@),
        body: body_view(f.body@),
    }
}

pub open spec fn funs_view(fs: Seq<Fun>) -> Seq<FunS>
    decreases fs,
{
    if fs.len() == 0 {
        Seq::empty()
    } else {
        seq![fun_view(fs.first())] + funs_view(fs.drop_first())
    }
}

pub open spec fn program_view(p: Program) -> ProgramS {
    ProgramS { functions: funs_view(p.functions@) }
}

// ------------------------------------------------------------------
// Pointwise descriptions of the list views.
// ------------------------------------------------------------------

pub broadcast proof fn lemma_body_view_len(b: Seq<Spanned<TopExpr>>)
    ensures
        (#[trigger] body_view(b)).len() == b.len(),
    decreases b,
{
    if b.len() > 0 {
        lemma_body_view_len(b.drop_first());
    }
}

pub broadcast proof fn lemma_body_view_index(b: Seq<Spanned<TopExpr>>, i: int)
    requires
        0 <= i < b.len(),
    ensures
        #[trigger] body_view(b)[i] == sp_top_view(b[i]),
    decreases b,
{
    lemma_body_view_len(b);
    if i > 0 {
        lemma_body_view_index(b.drop_first(), i - 1);
    }
}

pub broadcast proof fn lemma_args_view_len(a: Seq<Spanned<Expr>>)
    ensures
        (#[trigger] args_view(a)).len() == a.len(),
    decreases a,
{
    if a.len() > 0 {
        lemma_args_view_len(a.drop_first());
    }
}

pub broadcast proof fn lemma_args_view_index(a: Seq<Spanned<Expr>>, i: int)
    requires
        0 <= i < a.len(),
    ensures
        #[trigger] args_view(a)[i] == sp_expr_view(a[i]),
    decreases a,
{
    lemma_args_view_len(a);
    if i > 0 {
        lemma_args_view_index(a.drop_first(), i - 1);
    }
}

pub broadcast proof fn lemma_types_view_len(ts: Seq<Type>)
    ensures
        (#[trigger] types_view(ts)).len() == ts.len(),
    decreases ts,
{
    if ts.len() > 0 {
        lemma_types_view_len(ts.drop_first());
    }
}

pub broadcast proof fn lemma_types_view_index(ts: Seq<Type>, i: int)
    requires
        0 <= i < ts.len(),
    ensures
        #[trigger] types_view(ts)[i] == type_view(ts[i]),
    decreases ts,
{
    lemma_types_view_len(ts);
    if i > 0 {
        lemma_types_view_index(ts.drop_first(), i - 1);
    }
}

pub broadcast proof fn lemma_params_view_len(ps: Seq<(Ident, Type)>)
    ensures
        (#[trigger] params_view(ps)).len() == ps.len(),
    decreases ps,
{
    if ps.len() > 0 {
        lemma_params_view_len(ps.drop_first());
    }
}

pub broadcast proof fn lemma_params_view_index(ps: Seq<(Ident, Type)>, i: int)
    requires
        0 <= i < ps.len(),
    ensures
        #[trigger] params_view(ps)[i] == (ps[i].0.0@, type_view(ps[i].1)),
    decreases ps,
{
    lemma_params_view_len(ps);
    if i > 0 {
        lemma_params_view_index(ps.drop_first(), i - 1);
    }
}

pub broadcast proof fn lemma_funs_view_len(fs: Seq<Fun>)
    ensures
        (#[trigger] funs_view(fs)).len() == fs.len(),
    decreases fs,
{
    if fs.len() > 0 {
        lemma_funs_view_len(fs.drop_first());
    }
}

pub broadcast proof fn lemma_funs_view_index(fs: Seq<Fun>, i: int)
    requires
        0 <= i < fs.len(),
    ensures
        #[trigger] funs_view(fs)[i] == fun_view(fs[i]),
    decreases fs,
{
    lemma_funs_view_len(fs);
    if i > 0 {
        lemma_funs_view_index(fs.drop_first(), i - 1);
    }
}

/// The pointwise facts about the list views, as one group.
pub broadcast group group_ast_views {
    lemma_body_view_len,
    lemma_body_view_index,
    lemma_args_view_len,
    lemma_args_view_index,
    lemma_types_view_len,
    lemma_types_view_index,
    lemma_params_view_len,
    lemma_params_view_index,
    lemma_funs_view_len,
    lemma_funs_view_index,
}

} // verus!
