//! The type checker, as a family of total functions.
//!
//! The state `CtxS` carries the enclosing function's declared return
//! type, the span last entered, the function-signature table, the scope
//! stack, and the diagnostics collected so far. Each `spec_validate_*`
//! function returns the new state together with the type of the
//! construct, `None` meaning "already reported, propagate failure".

use vstd::prelude::*;

use crate::ast::{AssignS, BinS, BindingS, CallS, ComparisonExprS, ControlExprS, ExprS, ForS, FunS,
    GetByIndexS, IfS, LiteralS, MathExprS, ProgramS, ReturnS, SetByIndexS, ShortExprS, Spanned,
    TopExprS, TypeS, WhileS};
use crate::lexer::Span;

verus! {

/// A primitive type of the language.
#[derive(Debug, Clone, Copy, PartialEq, Eq, Structural)]
pub enum Primitive {
    Int,
    String,
    Boolean,
    Char,
}

/// The type of an expression. `Unit` doubles as "no meaningful type":
/// statements have it, and so does any unrecognized declared type.
#[derive(Debug)]
pub enum ExprType {
    Primitive(Primitive),
    Array(Box<ExprType>),
    Range(Box<ExprType>),
    Unit,
}

/// A function signature: argument types in order, and the return type.
pub struct FunTypeS {
    pub args: Seq<ExprType>,
    pub ret_type: ExprType,
}

/// One diagnostic.
pub enum CheckErrS {
    FunctionAlreadyDefined(Seq<u8>),
    MainNotFound,
    MainMustAcceptNoArguments,
    ArrayOfArgumentsMustHaveSameType,
    ArrayOfMustHaveArgument,
    AcceptsNoArguments(Seq<u8>),
    FunWrongArguments(Seq<u8>),
    FunNotFound(Seq<u8>),
    BindingAlreadyDefined(Seq<u8>),
    WrongOperands,
    BoolOperatorsOnlyBooleans,
    CantCompareBooleans,
    CantCompareTypes,
    NegOnlyInt,
    BoolNegOnlyBoolean,
    CantAddUnit,
    IdentNotFound(Seq<u8>),
    OnlyIntIndex,
    IndexOnlyArraysAndStrings,
    ConditionMustBeBoolean,
    OnlyArrayAndRangeIterable,
    WrongReturnType,
    VariableDifferentType(Seq<u8>),
    VariableNotFoundInScope(Seq<u8>),
}

/// One scope frame: bindings in insertion order; lookups take the last
/// matching entry.
pub type FrameS = Seq<(Seq<u8>, ExprType)>;

/// The checker's whole state.
pub struct CtxS {
    pub current_ret_type: Option<ExprType>,
    pub last_span: Option<Span>,
    pub functions: Seq<(Seq<u8>, FunTypeS)>,
    pub scopes: Seq<FrameS>,
    pub errors: Seq<(Span, CheckErrS)>,
}

pub open spec fn bytes_int() -> Seq<u8> {
    seq![73u8, 110u8, 116u8]
}

pub open spec fn bytes_string() -> Seq<u8> {
    seq![83u8, 116u8, 114u8, 105u8, 110u8, 103u8]
}

pub open spec fn bytes_boolean() -> Seq<u8> {
    seq![66u8, 111u8, 111u8, 108u8, 101u8, 97u8, 110u8]
}

pub open spec fn bytes_array() -> Seq<u8> {
    seq![65u8, 114u8, 114u8, 97u8, 121u8]
}

pub open spec fn bytes_main() -> Seq<u8> {
    seq![109u8, 97u8, 105u8, 110u8]
}

pub open spec fn bytes_print() -> Seq<u8> {
    seq![112u8, 114u8, 105u8, 110u8, 116u8]
}

pub open spec fn bytes_println() -> Seq<u8> {
    seq![112u8, 114u8, 105u8, 110u8, 116u8, 108u8, 110u8]
}

pub open spec fn bytes_array_of() -> Seq<u8> {
    seq![97u8, 114u8, 114u8, 97u8, 121u8, 79u8, 102u8]
}

pub open spec fn bytes_readln() -> Seq<u8> {
    seq![114u8, 101u8, 97u8, 100u8, 108u8, 110u8]
}

pub open spec fn bytes_readln_int() -> Seq<u8> {
    seq![114u8, 101u8, 97u8, 100u8, 108u8, 110u8, 73u8, 110u8, 116u8]
}

pub open spec fn bytes_readln_boolean() -> Seq<u8> {
    seq![114u8, 101u8, 97u8, 100u8, 108u8, 110u8, 66u8, 111u8, 111u8, 108u8, 101u8, 97u8, 110u8]
}

/// The type a declared `Type` denotes: `Int`, `String` and `Boolean` by
/// name; `Array` with exactly one recognized parameter; anything else,
/// a declared `Char` included, is `Unit`.
pub open spec fn spec_expr_type_of(t: TypeS) -> ExprType
    decreases t,
{
    match t {
        TypeS::Simple(name) => if name == bytes_int() {
            ExprType::Primitive(Primitive::Int)
        } else if name == bytes_string() {
            ExprType::Primitive(Primitive::String)
        } else if name == bytes_boolean() {
            ExprType::Primitive(Primitive::Boolean)
        } else {
            ExprType::Unit
        },
        TypeS::Generic(name, params) => if params.len() != 1 || name != bytes_array() {
            ExprType::Unit
        } else {
            let p = spec_expr_type_of(params[0]);
            if p != ExprType::Unit {
                ExprType::Array(Box::new(p))
            } else {
                ExprType::Unit
            }
        },
    }
}

/// A declared parameter list's types, in order.
pub open spec fn spec_arg_types(args: Seq<(Seq<u8>, TypeS)>) -> Seq<ExprType>
    decreases args,
{
    if args.len() == 0 {
        Seq::empty()
    } else {
        seq![spec_expr_type_of(args.first().1)] + spec_arg_types(args.drop_first())
    }
}

/// A function's signature.
pub open spec fn spec_fun_type_of(f: FunS) -> FunTypeS {
    FunTypeS {
        args: spec_arg_types(f.args),
        ret_type: match f.ret_type {
            Some(t) => spec_expr_type_of(t),
            None => ExprType::Unit,
        },
    }
}

/// The last matching binding of one frame.
pub open spec fn spec_frame_lookup(frame: FrameS, name: Seq<u8>) -> Option<ExprType>
    decreases frame.len(),
{
    if frame.len() == 0 {
        None
    } else if frame.last().0 == name {
        Some(frame.last().1)
    } else {
        spec_frame_lookup(frame.drop_last(), name)
    }
}

/// Scope lookup, innermost frame first.
pub open spec fn spec_lookup_var(scopes: Seq<FrameS>, name: Seq<u8>) -> Option<ExprType>
    decreases scopes.len(),
{
    if scopes.len() == 0 {
        None
    } else {
        match spec_frame_lookup(scopes.last(), name) {
            Some(t) => Some(t),
            None => spec_lookup_var(scopes.drop_last(), name),
        }
    }
}

/// The signature bound to a name, if any.
pub open spec fn spec_fun_lookup(funs: Seq<(Seq<u8>, FunTypeS)>, name: Seq<u8>) -> Option<FunTypeS>
    decreases funs.len(),
{
    if funs.len() == 0 {
        None
    } else if funs.first().0 == name {
        Some(funs.first().1)
    } else {
        spec_fun_lookup(funs.drop_first(), name)
    }
}

/// A diagnostic at a given span.
pub open spec fn spec_error_with_span(ctx: CtxS, err: CheckErrS, span: Span) -> CtxS {
    CtxS { errors: ctx.errors.push((span, err)), ..ctx }
}

/// A diagnostic at the span last entered, or at the zero span before
/// any node was entered.
pub open spec fn spec_error(ctx: CtxS, err: CheckErrS) -> CtxS {
    let span = match ctx.last_span {
        Some(s) => s,
        None => Span { lo: 0, hi: 0 },
    };
    spec_error_with_span(ctx, err, span)
}

/// A binding added to the innermost frame; redeclaration in that same
/// frame is an error instead.
pub open spec fn spec_add_var(ctx: CtxS, name: Seq<u8>, ty: ExprType) -> CtxS {
    if ctx.scopes.len() == 0 {
        ctx
    } else {
        let frame = ctx.scopes.last();
        if spec_frame_lookup(frame, name) is Some {
            spec_error(ctx, CheckErrS::BindingAlreadyDefined(name))
        } else {
            CtxS { scopes: ctx.scopes.update(ctx.scopes.len() - 1, frame.push((name, ty))), ..ctx }
        }
    }
}

pub open spec fn spec_push_scope(ctx: CtxS) -> CtxS {
    CtxS { scopes: ctx.scopes.push(Seq::empty()), ..ctx }
}

pub open spec fn spec_pop_scope(ctx: CtxS) -> CtxS {
    if ctx.scopes.len() == 0 {
        ctx
    } else {
        CtxS { scopes: ctx.scopes.drop_last(), ..ctx }
    }
}

/// The signature table built from the declarations in order; a repeated
/// name is reported and the earlier entry kept.
pub open spec fn spec_get_functions(ctx: CtxS, funs: Seq<FunS>) -> CtxS
    decreases funs.len(),
{
    if funs.len() == 0 {
        ctx
    } else {
        let f = funs.first();
        let ctx2 = if spec_fun_lookup(ctx.functions, f.name) is Some {
            spec_error(ctx, CheckErrS::FunctionAlreadyDefined(f.name))
        } else {
            CtxS { functions: ctx.functions.push((f.name, spec_fun_type_of(f))), ..ctx }
        };
        spec_get_functions(ctx2, funs.drop_first())
    }
}

/// `main` must exist and take no arguments.
pub open spec fn spec_check_main(ctx: CtxS) -> CtxS {
    match spec_fun_lookup(ctx.functions, bytes_main()) {
        Some(ft) => if ft.args.len() != 0 {
            spec_error_with_span(ctx, CheckErrS::MainMustAcceptNoArguments, Span { lo: 0, hi: 0 })
        } else {
            ctx
        },
        None => spec_error(ctx, CheckErrS::MainNotFound),
    }
}

/// What a built-in name returns for the given argument types, or `None`
/// when the name is no built-in. `args` is `None` when some argument
/// failed to type.
pub open spec fn spec_find_predefined(
    ctx: CtxS,
    name: Spanned<Seq<u8>>,
    args: Option<Seq<ExprType>>,
) -> (CtxS, Option<ExprType>) {
    if name.expr == bytes_print() || name.expr == bytes_println() {
        (ctx, Some(ExprType::Primitive(Primitive::String)))
    } else if name.expr == bytes_array_of() {
        match args {
            Some(ts) => if ts.len() == 0 {
                (spec_error(ctx, CheckErrS::ArrayOfMustHaveArgument), None)
            } else {
                let first = ts.first();
                let ctx2 = if exists|k: int| 0 <= k < ts.len() && ts[k] != first {
                    spec_error(ctx, CheckErrS::ArrayOfArgumentsMustHaveSameType)
                } else {
                    ctx
                };
                (ctx2, Some(ExprType::Array(Box::new(first))))
            },
            None => (ctx, None),
        }
    } else if name.expr == bytes_readln() || name.expr == bytes_readln_int() || name.expr
        == bytes_readln_boolean() {
        let arg_count: int = match args {
            Some(ts) => ts.len() as int,
            None => 1,
        };
        let ctx2 = if arg_count != 0 {
            spec_error_with_span(ctx, CheckErrS::AcceptsNoArguments(name.expr), name.span)
        } else {
            ctx
        };
        if name.expr == bytes_readln() {
            (ctx2, Some(ExprType::Primitive(Primitive::String)))
        } else if name.expr == bytes_readln_int() {
            (ctx2, Some(ExprType::Primitive(Primitive::Int)))
        } else {
            (ctx2, Some(ExprType::Primitive(Primitive::Boolean)))
        }
    } else {
        (ctx, None)
    }
}

/// The return type of a call: built-ins first, then the user table by
/// exact argument-type equality; a wrong argument list and an unknown
/// name are reported differently.
pub open spec fn spec_find_fun_ret_type(
    ctx: CtxS,
    name: Spanned<Seq<u8>>,
    args: Option<Seq<ExprType>>,
) -> (CtxS, Option<ExprType>) {
    let (ctx1, pre) = spec_find_predefined(ctx, name, args);
    match pre {
        Some(t) => (ctx1, Some(t)),
        None => match spec_fun_lookup(ctx1.functions, name.expr) {
            Some(ft) => match args {
                Some(ts) => if ft.args == ts {
                    (ctx1, Some(ft.ret_type))
                } else {
                    (spec_error(ctx1, CheckErrS::FunWrongArguments(name.expr)), None)
                },
                None => (ctx1, None),
            },
            None => (
                spec_error_with_span(ctx1, CheckErrS::FunNotFound(name.expr), name.span),
                None,
            ),
        },
    }
}

/// The shared tail of every binary rule: both sides must already have
/// types, and they must be equal.
pub open spec fn spec_require_equal(
    ctx: CtxS,
    lt: Option<ExprType>,
    rt: Option<ExprType>,
) -> (CtxS, Option<ExprType>) {
    match rt {
        None => (ctx, None),
        Some(r) => match lt {
            None => (ctx, None),
            Some(l) => if l == r {
                (ctx, Some(r))
            } else {
                (spec_error(ctx, CheckErrS::WrongOperands), None)
            },
        },
    }
}

/// Both operands validated left to right, then equality required.
pub open spec fn spec_ensure_type_equality(ctx: CtxS, b: BinS) -> (CtxS, Option<ExprType>)
    decreases b, 1int,
{
    let (c1, lt) = spec_validate_sp_expr(ctx, *b.left);
    let (c2, rt) = spec_validate_sp_expr(c1, *b.right);
    spec_require_equal(c2, lt, rt)
}

/// A literal's type.
pub open spec fn spec_validate_literal(l: LiteralS) -> ExprType {
    match l {
        LiteralS::Int(_) => ExprType::Primitive(Primitive::Int),
        LiteralS::Bool(_) => ExprType::Primitive(Primitive::Boolean),
        LiteralS::Char(_) => ExprType::Primitive(Primitive::Char),
        LiteralS::String(_) => ExprType::Primitive(Primitive::String),
    }
}

/// A spanned expression: the span is entered for the node's own
/// diagnostics and restored afterwards.
pub open spec fn spec_validate_sp_expr(ctx: CtxS, se: Spanned<ExprS>) -> (CtxS, Option<ExprType>)
    decreases se, 1int,
{
    let saved = ctx.last_span;
    let (c1, ty) = spec_validate_expr(CtxS { last_span: Some(se.span), ..ctx }, se.expr);
    (CtxS { last_span: saved, ..c1 }, ty)
}

/// A spanned statement, likewise.
pub open spec fn spec_validate_sp_top(ctx: CtxS, st: Spanned<TopExprS>) -> (CtxS, Option<ExprType>)
    decreases st, 1int,
{
    let saved = ctx.last_span;
    let (c1, ty) = spec_validate_top(CtxS { last_span: Some(st.span), ..ctx }, st.expr);
    (CtxS { last_span: saved, ..c1 }, ty)
}

pub open spec fn spec_validate_expr(ctx: CtxS, e: ExprS) -> (CtxS, Option<ExprType>)
    decreases e, 0int,
{
    match e {
        ExprS::TopExpr(t) => spec_validate_top(ctx, t),
        ExprS::MathExpr(m) => spec_validate_math(ctx, m),
        ExprS::ComparisonExpr(c) => spec_validate_cmp(ctx, c),
        ExprS::ShortExpr(s) => spec_validate_short(ctx, s),
    }
}

/// The arithmetic rules. Negation needs `Int`, boolean negation
/// `Boolean`; subtraction, multiplication and division need equal
/// operand types; addition has its own rule; a range needs equal sides.
pub open spec fn spec_validate_math(ctx: CtxS, m: MathExprS) -> (CtxS, Option<ExprType>)
    decreases m, 2int,
{
    match m {
        MathExprS::Neg(e) => {
            let (c1, ty) = spec_validate_sp_expr(ctx, *e);
            match ty {
                None => (c1, None),
                Some(t) => if t != ExprType::Primitive(Primitive::Int) {
                    (spec_error(c1, CheckErrS::NegOnlyInt), None)
                } else {
                    (c1, Some(t))
                },
            }
        },
        MathExprS::BoolNeg(e) => {
            let (c1, ty) = spec_validate_sp_expr(ctx, *e);
            match ty {
                None => (c1, None),
                Some(t) => if t != ExprType::Primitive(Primitive::Boolean) {
                    (spec_error(c1, CheckErrS::BoolNegOnlyBoolean), None)
                } else {
                    (c1, Some(t))
                },
            }
        },
        MathExprS::Parens(e) => spec_validate_sp_expr(ctx, *e),
        MathExprS::Range(b) => {
            let (c1, ty) = spec_ensure_type_equality(ctx, b);
            match ty {
                None => (c1, None),
                Some(t) => (c1, Some(ExprType::Range(Box::new(t)))),
            }
        },
        MathExprS::Sub(b) => spec_ensure_type_equality(ctx, b),
        MathExprS::Mul(b) => spec_ensure_type_equality(ctx, b),
        MathExprS::Div(b) => spec_ensure_type_equality(ctx, b),
        MathExprS::Add(b) => spec_validate_add(ctx, b),
    }
}

/// Addition: no `Unit` side; a `String` side makes it concatenation of
/// type `String` whatever the other side is; otherwise both sides are
/// validated once more and must have equal types.
pub open spec fn spec_validate_add(ctx: CtxS, b: BinS) -> (CtxS, Option<ExprType>)
    decreases b, 2int,
{
    let (c1, lt) = spec_validate_sp_expr(ctx, *b.left);
    match lt {
        None => (c1, None),
        Some(l) => {
            let (c2, rt) = spec_validate_sp_expr(c1, *b.right);
            match rt {
                None => (c2, None),
                Some(r) => if l == ExprType::Unit || r == ExprType::Unit {
                    (spec_error(c2, CheckErrS::CantAddUnit), None)
                } else if l == ExprType::Primitive(Primitive::String) || r == ExprType::Primitive(
                    Primitive::String,
                ) {
                    (c2, Some(ExprType::Primitive(Primitive::String)))
                } else {
                    spec_ensure_type_equality(c2, b)
                },
            }
        },
    }
}

/// The comparison rules: equal operand types always; `&&` and `||` need
/// `Boolean`; `<` and `>` need an orderable primitive, and booleans are
/// not orderable.
pub open spec fn spec_validate_cmp(ctx: CtxS, c: ComparisonExprS) -> (CtxS, Option<ExprType>)
    decreases c, 2int,
{
    let b = match c {
        ComparisonExprS::LessThan(b) => b,
        ComparisonExprS::MoreThan(b) => b,
        ComparisonExprS::And(b) => b,
        ComparisonExprS::Or(b) => b,
    };
    let (c1, ty) = spec_ensure_type_equality(ctx, b);
    if c is And || c is Or {
        match ty {
            None => (c1, None),
            Some(t) => if t != ExprType::Primitive(Primitive::Boolean) {
                (spec_error(c1, CheckErrS::BoolOperatorsOnlyBooleans), None)
            } else {
                (c1, Some(ExprType::Primitive(Primitive::Boolean)))
            },
        }
    } else {
        match ty {
            Some(ExprType::Primitive(p)) => if p is Boolean {
                (spec_error(c1, CheckErrS::CantCompareBooleans), None)
            } else {
                (c1, Some(ExprType::Primitive(Primitive::Boolean)))
            },
            Some(_) => (spec_error(c1, CheckErrS::CantCompareTypes), None),
            None => (spec_error(c1, CheckErrS::CantCompareTypes), None),
        }
    }
}

/// The innermost rules: a name must resolve; an index must be `Int` and
/// the base an array (element type) or a string (`Char`), the two
/// reported independently; a literal types by its kind.
pub open spec fn spec_validate_short(ctx: CtxS, s: ShortExprS) -> (CtxS, Option<ExprType>)
    decreases s, 2int,
{
    match s {
        ShortExprS::Ident(name) => match spec_lookup_var(ctx.scopes, name) {
            Some(t) => (ctx, Some(t)),
            None => (spec_error(ctx, CheckErrS::IdentNotFound(name)), None),
        },
        ShortExprS::GetByIndex(g) => spec_validate_gbi(ctx, g),
        ShortExprS::Literal(l) => (ctx, Some(spec_validate_literal(l))),
    }
}

/// The spanned base name of an indexing node.
pub open spec fn spec_validate_sp_ident(ctx: CtxS, si: Spanned<Seq<u8>>) -> (
    CtxS,
    Option<ExprType>,
) {
    let saved = ctx.last_span;
    let c0 = CtxS { last_span: Some(si.span), ..ctx };
    let (c1, ty) = match spec_lookup_var(c0.scopes, si.expr) {
        Some(t) => (c0, Some(t)),
        None => (spec_error(c0, CheckErrS::IdentNotFound(si.expr)), None),
    };
    (CtxS { last_span: saved, ..c1 }, ty)
}

pub open spec fn spec_validate_gbi(ctx: CtxS, g: GetByIndexS) -> (CtxS, Option<ExprType>)
    decreases g, 1int,
{
    let (c1, base) = spec_validate_sp_ident(ctx, g.ident);
    let (c2, index) = spec_validate_sp_expr(c1, *g.index);
    let c3 = match index {
        Some(t) => if t == ExprType::Primitive(Primitive::Int) {
            c2
        } else {
            spec_error_with_span(c2, CheckErrS::OnlyIntIndex, g.index.span)
        },
        None => c2,
    };
    match base {
        None => (c3, None),
        Some(ExprType::Array(t)) => (c3, Some(*t)),
        Some(ExprType::Primitive(p)) => if p is String {
            (c3, Some(ExprType::Primitive(Primitive::Char)))
        } else {
            (spec_error(c3, CheckErrS::IndexOnlyArraysAndStrings), None)
        },
        Some(_) => (spec_error(c3, CheckErrS::IndexOnlyArraysAndStrings), None),
    }
}

/// A call's arguments validated in order; the types of those that
/// succeeded, and whether all did.
pub open spec fn spec_validate_args(ctx: CtxS, args: Seq<Spanned<ExprS>>) -> (CtxS, Seq<ExprType>)
    decreases args, 1int,
{
    if args.len() == 0 {
        (ctx, Seq::empty())
    } else {
        let (c1, ty) = spec_validate_sp_expr(ctx, args.first());
        let (c2, rest) = spec_validate_args(c1, args.drop_first());
        match ty {
            Some(t) => (c2, seq![t] + rest),
            None => (c2, rest),
        }
    }
}

pub open spec fn spec_validate_call(ctx: CtxS, c: CallS) -> (CtxS, Option<ExprType>)
    decreases c, 2int,
{
    let (c1, tys) = spec_validate_args(ctx, c.args);
    if tys.len() == c.args.len() {
        spec_find_fun_ret_type(c1, c.name, Some(tys))
    } else {
        spec_find_fun_ret_type(c1, c.name, None)
    }
}

/// A statement sequence; a failing statement stops the walk of its body
/// at once (its enclosing scope is left as it stands).
pub open spec fn spec_validate_body(ctx: CtxS, body: Seq<Spanned<TopExprS>>) -> (CtxS, bool)
    decreases body, 1int,
{
    if body.len() == 0 {
        (ctx, true)
    } else {
        let (c1, ty) = spec_validate_sp_top(ctx, body.first());
        match ty {
            None => (c1, false),
            Some(_) => spec_validate_body(c1, body.drop_first()),
        }
    }
}

pub open spec fn spec_validate_control(ctx: CtxS, c: ControlExprS) -> (CtxS, Option<ExprType>)
    decreases c, 2int,
{
    match c {
        ControlExprS::If(e) => spec_validate_if(ctx, e),
        ControlExprS::For(e) => spec_validate_for(ctx, e),
        ControlExprS::While(e) => spec_validate_while(ctx, e),
        ControlExprS::Return(e) => spec_validate_return(ctx, e),
    }
}

/// `if`: the condition must be `Boolean`; each branch walks in a scope
/// of its own; the whole statement has type `Unit`.
pub open spec fn spec_validate_if(ctx: CtxS, e: IfS) -> (CtxS, Option<ExprType>)
    decreases e, 1int,
{
    let (c1, cond) = spec_validate_sp_expr(ctx, *e.expr);
    match cond {
        None => (c1, None),
        Some(t) => if t == ExprType::Primitive(Primitive::Boolean) {
            let (c2, ok) = spec_validate_body(spec_push_scope(c1), e.body);
            if !ok {
                (c2, None)
            } else {
                let (c3, ok2) = spec_validate_body(spec_push_scope(spec_pop_scope(c2)),
                    e.else_branch);
                if !ok2 {
                    (c3, None)
                } else {
                    (spec_pop_scope(c3), Some(ExprType::Unit))
                }
            }
        } else {
            (spec_error(c1, CheckErrS::ConditionMustBeBoolean), None)
        },
    }
}

/// `for`: the iterable must be an array or a range; the loop variable is
/// bound to the element type in a fresh scope.
pub open spec fn spec_validate_for(ctx: CtxS, e: ForS) -> (CtxS, Option<ExprType>)
    decreases e, 1int,
{
    let (c1, iter) = spec_validate_sp_expr(ctx, *e.iterable);
    match iter {
        None => (c1, None),
        Some(t) => {
            let elem = match t {
                ExprType::Array(t) => Some(*t),
                ExprType::Range(t) => Some(*t),
                _ => None,
            };
            match elem {
                None => (spec_error(c1, CheckErrS::OnlyArrayAndRangeIterable), None),
                Some(elem) => {
                    let c2 = spec_add_var(spec_push_scope(c1), e.var, elem);
                    let (c3, ok) = spec_validate_body(c2, e.body);
                    if !ok {
                        (c3, None)
                    } else {
                        (spec_pop_scope(c3), Some(ExprType::Unit))
                    }
                },
            }
        },
    }
}

/// `while`: the condition must be `Boolean`; the body walks in a scope
/// of its own.
pub open spec fn spec_validate_while(ctx: CtxS, e: WhileS) -> (CtxS, Option<ExprType>)
    decreases e, 1int,
{
    let (c1, cond) = spec_validate_sp_expr(ctx, *e.expr);
    match cond {
        None => (c1, None),
        Some(t) => if t == ExprType::Primitive(Primitive::Boolean) {
            let (c2, ok) = spec_validate_body(spec_push_scope(c1), e.body);
            if !ok {
                (c2, None)
            } else {
                (spec_pop_scope(c2), Some(ExprType::Unit))
            }
        } else {
            (spec_error(c1, CheckErrS::ConditionMustBeBoolean), None)
        },
    }
}

/// `return`: the expression's type (or `Unit` without one) is compared
/// against the enclosing declared return type; a mismatch is reported
/// but the statement itself still has type `Unit`.
pub open spec fn spec_validate_return(ctx: CtxS, e: ReturnS) -> (CtxS, Option<ExprType>)
    decreases e, 1int,
{
    let expected = match ctx.current_ret_type {
        Some(t) => t,
        None => ExprType::Unit,
    };
    match e.0 {
        Some(inner) => {
            let (c1, ty) = spec_validate_sp_expr(ctx, *inner);
            match ty {
                None => (c1, None),
                Some(actual) => if actual != expected {
                    (spec_error(c1, CheckErrS::WrongReturnType), Some(ExprType::Unit))
                } else {
                    (c1, Some(ExprType::Unit))
                },
            }
        },
        None => if expected != ExprType::Unit {
            (spec_error(ctx, CheckErrS::WrongReturnType), Some(ExprType::Unit))
        } else {
            (ctx, Some(ExprType::Unit))
        },
    }
}

/// `val`/`var`: the right-hand side must type, and the name goes into
/// the innermost scope.
pub open spec fn spec_validate_binding(ctx: CtxS, b: BindingS) -> (CtxS, Option<ExprType>)
    decreases b, 2int,
{
    let (c1, ty) = spec_validate_sp_expr(ctx, *b.set.expr);
    match ty {
        None => (c1, None),
        Some(t) => (spec_add_var(c1, b.set.name.expr, t), Some(t)),
    }
}

/// `x = e`: the name must already be bound somewhere, with exactly the
/// right-hand side's type; the statement has type `Unit`.
pub open spec fn spec_validate_assign(ctx: CtxS, a: AssignS) -> (CtxS, Option<ExprType>)
    decreases a, 2int,
{
    let (c1, ty) = spec_validate_sp_expr(ctx, *a.expr);
    match spec_lookup_var(c1.scopes, a.name.expr) {
        Some(expected) => match ty {
            None => (c1, None),
            Some(t) => if expected != t {
                (spec_error(c1, CheckErrS::VariableDifferentType(a.name.expr)), None)
            } else {
                (c1, Some(ExprType::Unit))
            },
        },
        None => (
            spec_error_with_span(c1, CheckErrS::VariableNotFoundInScope(a.name.expr), a.name.span),
            None,
        ),
    }
}

/// `a[i] = e`: the element read back must have the right-hand side's
/// type.
pub open spec fn spec_validate_sbi(ctx: CtxS, s: SetByIndexS) -> (CtxS, Option<ExprType>)
    decreases s, 2int,
{
    let (c1, lt) = spec_validate_gbi(ctx, s.get_by_index);
    let (c2, rt) = spec_validate_sp_expr(c1, *s.expr);
    spec_require_equal(c2, lt, rt)
}

pub open spec fn spec_validate_top(ctx: CtxS, t: TopExprS) -> (CtxS, Option<ExprType>)
    decreases t, 3int,
{
    match t {
        TopExprS::Call(c) => spec_validate_call(ctx, c),
        TopExprS::Binding(b) => spec_validate_binding(ctx, b),
        TopExprS::Assign(a) => spec_validate_assign(ctx, a),
        TopExprS::ControlExpr(c) => spec_validate_control(ctx, c),
        TopExprS::SetByIndex(s) => spec_validate_sbi(ctx, s),
    }
}

/// One frame holding a function's parameters, in declaration order.
pub open spec fn spec_param_frame(args: Seq<(Seq<u8>, TypeS)>) -> FrameS
    decreases args,
{
    if args.len() == 0 {
        Seq::empty()
    } else {
        seq![(args.first().0, spec_expr_type_of(args.first().1))] + spec_param_frame(
            args.drop_first(),
        )
    }
}

/// A function's top-level statements: unlike a nested body, the walk
/// goes on past a failed statement, so one pass surfaces every
/// independent diagnostic.
pub open spec fn spec_validate_stmts_all(ctx: CtxS, body: Seq<Spanned<TopExprS>>) -> CtxS
    decreases body, 2int,
{
    if body.len() == 0 {
        ctx
    } else {
        let (c1, _) = spec_validate_sp_top(ctx, body.first());
        spec_validate_stmts_all(c1, body.drop_first())
    }
}

/// Every function body walked under its parameter frame, with the
/// declared return type current.
pub open spec fn spec_validate_functions(ctx: CtxS, funs: Seq<FunS>) -> CtxS
    decreases funs.len(),
{
    if funs.len() == 0 {
        ctx
    } else {
        let f = funs.first();
        let rt = match f.ret_type {
            Some(t) => spec_expr_type_of(t),
            None => ExprType::Unit,
        };
        let c1 = CtxS {
            current_ret_type: Some(rt),
            scopes: ctx.scopes.push(spec_param_frame(f.args)),
            ..ctx
        };
        let c2 = spec_validate_stmts_all(c1, f.body);
        spec_validate_functions(spec_pop_scope(c2), funs.drop_first())
    }
}

/// The initial, empty state.
pub open spec fn spec_ctx_default() -> CtxS {
    CtxS {
        current_ret_type: None,
        last_span: None,
        functions: Seq::empty(),
        scopes: Seq::empty(),
        errors: Seq::empty(),
    }
}

/// The whole check: table, `main`, then every body; the diagnostics in
/// the order they were raised. An empty result is the sole acceptance
/// signal.
pub open spec fn spec_check_program(p: ProgramS) -> Seq<(Span, CheckErrS)> {
    let c1 = spec_get_functions(spec_ctx_default(), p.functions);
    let c2 = spec_check_main(c1);
    let c3 = spec_validate_functions(c2, p.functions);
    c3.errors
}

pub broadcast proof fn lemma_arg_types_len(args: Seq<(Seq<u8>, TypeS)>)
    ensures
        (#[trigger] spec_arg_types(args)).len() == args.len(),
    decreases args,
{
    if args.len() > 0 {
        lemma_arg_types_len(args.drop_first());
    }
}

pub broadcast proof fn lemma_arg_types_index(args: Seq<(Seq<u8>, TypeS)>, i: int)
    requires
        0 <= i < args.len(),
    ensures
        #[trigger] spec_arg_types(args)[i] == spec_expr_type_of(args[i].1),
    decreases args,
{
    lemma_arg_types_len(args);
    if i > 0 {
        lemma_arg_types_index(args.drop_first(), i - 1);
    }
}

pub broadcast proof fn lemma_param_frame_len(args: Seq<(Seq<u8>, TypeS)>)
    ensures
        (#[trigger] spec_param_frame(args)).len() == args.len(),
    decreases args,
{
    if args.len() > 0 {
        lemma_param_frame_len(args.drop_first());
    }
}

pub broadcast proof fn lemma_param_frame_index(args: Seq<(Seq<u8>, TypeS)>, i: int)
    requires
        0 <= i < args.len(),
    ensures
        #[trigger] spec_param_frame(args)[i] == (args[i].0, spec_expr_type_of(args[i].1)),
    decreases args,
{
    lemma_param_frame_len(args);
    if i > 0 {
        lemma_param_frame_index(args.drop_first(), i - 1);
    }
}

/// The built-in names are pairwise distinct: they differ in length, or
/// in their first byte.
pub proof fn lemma_builtin_names_distinct()
    ensures
        bytes_print() != bytes_println(),
        bytes_print() != bytes_array_of(),
        bytes_print() != bytes_readln(),
        bytes_print() != bytes_readln_int(),
        bytes_print() != bytes_readln_boolean(),
        bytes_println() != bytes_array_of(),
        bytes_println() != bytes_readln(),
        bytes_println() != bytes_readln_int(),
        bytes_println() != bytes_readln_boolean(),
        bytes_array_of() != bytes_readln(),
        bytes_array_of() != bytes_readln_int(),
        bytes_array_of() != bytes_readln_boolean(),
        bytes_readln() != bytes_readln_int(),
        bytes_readln() != bytes_readln_boolean(),
        bytes_readln_int() != bytes_readln_boolean(),
{
    assert(bytes_print().len() == 5);
    assert(bytes_println().len() == 7);
    assert(bytes_array_of().len() == 7);
    assert(bytes_readln().len() == 6);
    assert(bytes_readln_int().len() == 9);
    assert(bytes_readln_boolean().len() == 13);
    assert(bytes_println()[0] == 112);
    assert(bytes_array_of()[0] == 97);
}

/// The pointwise facts about the signature views, as one group.
pub broadcast group group_checker_model {
    lemma_arg_types_len,
    lemma_arg_types_index,
    lemma_param_frame_len,
    lemma_param_frame_index,
}

} // verus!
