//! The static type checker.
//!
//! `check_program` walks a parsed program once and returns every
//! diagnostic it can reach, in order; an empty list is the sole
//! acceptance signal. The whole walk is specified by
//! [`model`](crate::analyzer::model): each method's contract equates the
//! new checker state with its model twin.

use vstd::prelude::*;

pub mod model;
pub mod validation;

pub use model::{CheckErrS, CtxS, ExprType, FunTypeS, Primitive};

use crate::ast::{Fun, Ident, Program, Type, fun_view, funs_view, program_view, type_view};
use crate::lexer::Span;
use model::{FrameS, bytes_array, bytes_boolean, bytes_int, bytes_main, bytes_string,
    spec_add_var, spec_arg_types, spec_check_main, spec_ctx_default,
    spec_error, spec_error_with_span, spec_expr_type_of, spec_frame_lookup, spec_fun_lookup,
    spec_fun_type_of, spec_get_functions, spec_lookup_var, spec_pop_scope,
    spec_push_scope};

verus! {

broadcast use vstd::std_specs::vec::group_vec_axioms, crate::ast::group_ast_views,
    model::group_checker_model;

/// One diagnostic, as a structured value; rendering it as text is the
/// caller's presentation concern.
#[derive(Debug)]
pub enum CheckErr {
    FunctionAlreadyDefined(Vec<u8>),
    MainNotFound,
    MainMustAcceptNoArguments,
    ArrayOfArgumentsMustHaveSameType,
    ArrayOfMustHaveArgument,
    AcceptsNoArguments(Vec<u8>),
    FunWrongArguments(Vec<u8>),
    FunNotFound(Vec<u8>),
    BindingAlreadyDefined(Vec<u8>),
    WrongOperands,
    BoolOperatorsOnlyBooleans,
    CantCompareBooleans,
    CantCompareTypes,
    NegOnlyInt,
    BoolNegOnlyBoolean,
    CantAddUnit,
    IdentNotFound(Vec<u8>),
    OnlyIntIndex,
    IndexOnlyArraysAndStrings,
    ConditionMustBeBoolean,
    OnlyArrayAndRangeIterable,
    WrongReturnType,
    VariableDifferentType(Vec<u8>),
    VariableNotFoundInScope(Vec<u8>),
}

pub open spec fn check_err_view(e: CheckErr) -> CheckErrS {
    match e {
        CheckErr::FunctionAlreadyDefined(n) => CheckErrS::FunctionAlreadyDefined(n@),
        CheckErr::MainNotFound => CheckErrS::MainNotFound,
        CheckErr::MainMustAcceptNoArguments => CheckErrS::MainMustAcceptNoArguments,
        CheckErr::ArrayOfArgumentsMustHaveSameType => CheckErrS::ArrayOfArgumentsMustHaveSameType,
        CheckErr::ArrayOfMustHaveArgument => CheckErrS::ArrayOfMustHaveArgument,
        CheckErr::AcceptsNoArguments(n) => CheckErrS::AcceptsNoArguments(n@),
        CheckErr::FunWrongArguments(n) => CheckErrS::FunWrongArguments(n@),
        CheckErr::FunNotFound(n) => CheckErrS::FunNotFound(n@),
        CheckErr::BindingAlreadyDefined(n) => CheckErrS::BindingAlreadyDefined(n@),
        CheckErr::WrongOperands => CheckErrS::WrongOperands,
        CheckErr::BoolOperatorsOnlyBooleans => CheckErrS::BoolOperatorsOnlyBooleans,
        CheckErr::CantCompareBooleans => CheckErrS::CantCompareBooleans,
        CheckErr::CantCompareTypes => CheckErrS::CantCompareTypes,
        CheckErr::NegOnlyInt => CheckErrS::NegOnlyInt,
        CheckErr::BoolNegOnlyBoolean => CheckErrS::BoolNegOnlyBoolean,
        CheckErr::CantAddUnit => CheckErrS::CantAddUnit,
        CheckErr::IdentNotFound(n) => CheckErrS::IdentNotFound(n@),
        CheckErr::OnlyIntIndex => CheckErrS::OnlyIntIndex,
        CheckErr::IndexOnlyArraysAndStrings => CheckErrS::IndexOnlyArraysAndStrings,
        CheckErr::ConditionMustBeBoolean => CheckErrS::ConditionMustBeBoolean,
        CheckErr::OnlyArrayAndRangeIterable => CheckErrS::OnlyArrayAndRangeIterable,
        CheckErr::WrongReturnType => CheckErrS::WrongReturnType,
        CheckErr::VariableDifferentType(n) => CheckErrS::VariableDifferentType(n@),
        CheckErr::VariableNotFoundInScope(n) => CheckErrS::VariableNotFoundInScope(n@),
    }
}

/// A function signature.
#[derive(Debug)]
pub struct FunType {
    pub args: Vec<ExprType>,
    pub ret_type: ExprType,
}

pub open spec fn fun_type_view(ft: FunType) -> FunTypeS {
    FunTypeS { args: ft.args@, ret_type: ft.ret_type }
}

pub open spec fn frame_view(f: Seq<(Ident, ExprType)>) -> FrameS {
    f.map_values(|p: (Ident, ExprType)| (p.0.0@, p.1))
}

pub open spec fn scopes_view(s: Seq<Vec<(Ident, ExprType)>>) -> Seq<FrameS> {
    s.map_values(|fr: Vec<(Ident, ExprType)>| frame_view(fr@))
}

pub open spec fn funs_table_view(fs: Seq<(Ident, FunType)>) -> Seq<(Seq<u8>, FunTypeS)> {
    fs.map_values(|p: (Ident, FunType)| (p.0.0@, fun_type_view(p.1)))
}

pub open spec fn errors_view(es: Seq<(Span, CheckErr)>) -> Seq<(Span, CheckErrS)> {
    es.map_values(|p: (Span, CheckErr)| (p.0, check_err_view(p.1)))
}

/// The checker's working state.
#[derive(Debug)]
pub struct Context {
    pub current_ret_type: Option<ExprType>,
    pub last_span: Option<Span>,
    pub functions: Vec<(Ident, FunType)>,
    pub scopes: Vec<Vec<(Ident, ExprType)>>,
    pub errors: Vec<(Span, CheckErr)>,
}

impl Context {
    pub open spec fn view(&self) -> CtxS {
        CtxS {
            current_ret_type: self.current_ret_type,
            last_span: self.last_span,
            functions: funs_table_view(self.functions@),
            scopes: scopes_view(self.scopes@),
            errors: errors_view(self.errors@),
        }
    }
}

/// Byte-string equality.
pub fn bytes_eq(a: &Vec<u8>, b: &Vec<u8>) -> (r: bool)
    ensures
        r == (a@ == b@),
{
    if a.len() != b.len() {
        proof {
            assert(a@ != b@);
        }
        return false;
    }
    let mut k: usize = 0;
    while k < a.len()
        invariant
            k <= a@.len() == b@.len(),
            forall|j: int| 0 <= j < k ==> a@[j] == b@[j],
        decreases a@.len() - k,
    {
        if a[k] != b[k] {
            return false;
        }
        k += 1;
    }
    proof {
        assert(a@ =~= b@);
    }
    true
}

/// A copy of a byte string.
pub fn bytes_clone(v: &Vec<u8>) -> (r: Vec<u8>)
    ensures
        r@ == v@,
{
    let mut out: Vec<u8> = Vec::new();
    let mut k: usize = 0;
    while k < v.len()
        invariant
            k <= v@.len(),
            out@ == v@.subrange(0, k as int),
        decreases v@.len() - k,
    {
        out.push(v[k]);
        proof {
            assert(v@.subrange(0, k + 1) =~= v@.subrange(0, k as int).push(v@[k as int]));
        }
        k += 1;
    }
    proof {
        assert(v@.subrange(0, v@.len() as int) =~= v@);
    }
    out
}

fn name_is(v: &Vec<u8>, w: &[u8]) -> (r: bool)
    ensures
        r == (v@ == w@),
{
    if v.len() != w.len() {
        proof {
            assert(v@ != w@);
        }
        return false;
    }
    let mut k: usize = 0;
    while k < v.len()
        invariant
            k <= v@.len() == w@.len(),
            forall|j: int| 0 <= j < k ==> v@[j] == w@[j],
        decreases v@.len() - k,
    {
        if v[k] != w[k] {
            return false;
        }
        k += 1;
    }
    proof {
        assert(v@ =~= w@);
    }
    true
}

/// Structural equality of two expression types.
pub fn expr_type_eq(a: &ExprType, b: &ExprType) -> (r: bool)
    ensures
        r == (*a == *b),
    decreases *a,
{
    match (a, b) {
        (ExprType::Primitive(x), ExprType::Primitive(y)) => *x == *y,
        (ExprType::Array(x), ExprType::Array(y)) => expr_type_eq(x, y),
        (ExprType::Range(x), ExprType::Range(y)) => expr_type_eq(x, y),
        (ExprType::Unit, ExprType::Unit) => true,
        _ => false,
    }
}

/// A copy of an expression type.
pub fn expr_type_clone(t: &ExprType) -> (r: ExprType)
    ensures
        r == *t,
    decreases *t,
{
    match t {
        ExprType::Primitive(p) => ExprType::Primitive(*p),
        ExprType::Array(b) => ExprType::Array(Box::new(expr_type_clone(b))),
        ExprType::Range(b) => ExprType::Range(Box::new(expr_type_clone(b))),
        ExprType::Unit => ExprType::Unit,
    }
}

/// Elementwise equality of two argument-type lists.
pub fn expr_types_eq(a: &Vec<ExprType>, b: &Vec<ExprType>) -> (r: bool)
    ensures
        r == (a@ == b@),
{
    if a.len() != b.len() {
        proof {
            assert(a@ != b@);
        }
        return false;
    }
    let mut k: usize = 0;
    while k < a.len()
        invariant
            k <= a@.len() == b@.len(),
            forall|j: int| 0 <= j < k ==> a@[j] == b@[j],
        decreases a@.len() - k,
    {
        if !expr_type_eq(&a[k], &b[k]) {
            return false;
        }
        k += 1;
    }
    proof {
        assert(a@ =~= b@);
    }
    true
}

/// The type a declared `Type` denotes.
pub fn expr_type_of(t: &Type) -> (r: ExprType)
    ensures
        r == spec_expr_type_of(type_view(*t)),
    decreases *t,
{
    match t {
        Type::Simple(name) => {
            if is_int_name(&name.0) {
                ExprType::Primitive(Primitive::Int)
            } else if is_string_name(&name.0) {
                ExprType::Primitive(Primitive::String)
            } else if is_boolean_name(&name.0) {
                ExprType::Primitive(Primitive::Boolean)
            } else {
                ExprType::Unit
            }
        },
        Type::Generic(name, params) => {
            proof {
                assert(crate::ast::types_view(params@).len() == params@.len());
                assert(type_view(*t) == crate::ast::TypeS::Generic(
                    name.0@,
                    crate::ast::types_view(params@),
                ));
            }
            if params.len() != 1 || !is_array_name(&name.0) {
                ExprType::Unit
            } else {
                proof {
                    assert(crate::ast::types_view(params@)[0] == type_view(params@[0]));
                }
                let p = expr_type_of(&params[0]);
                if !expr_type_eq(&p, &ExprType::Unit) {
                    ExprType::Array(Box::new(p))
                } else {
                    ExprType::Unit
                }
            }
        },
    }
}

/// A function's declared signature.
pub fn fun_type_of(f: &Fun) -> (r: FunType)
    ensures
        fun_type_view(r) == spec_fun_type_of(fun_view(*f)),
{
    let mut args: Vec<ExprType> = Vec::new();
    let mut k: usize = 0;
    while k < f.args.len()
        invariant
            k <= f.args@.len(),
            args@.len() == k,
            forall|j: int|
                0 <= j < k ==> args@[j] == spec_expr_type_of(type_view(f.args@[j].1)),
        decreases f.args@.len() - k,
    {
        args.push(expr_type_of(&f.args[k].1));
        k += 1;
    }
    proof {
        assert(args@ =~= spec_arg_types(crate::ast::params_view(f.args@)));
    }
    let ret_type = match &f.ret_type {
        Some(t) => expr_type_of(t),
        None => ExprType::Unit,
    };
    FunType { args, ret_type }
}


/// The tests below decide name equality against each name the checker
/// distinguishes, stated over the model's byte sequences.
fn is_int_name(v: &Vec<u8>) -> (r: bool)
    ensures
        r == (v@ == bytes_int()),
{
    let w: [u8; 3] = [73, 110, 116];
    proof {
        assert(w@ =~= bytes_int());
    }
    name_is(v, w.as_slice())
}

fn is_string_name(v: &Vec<u8>) -> (r: bool)
    ensures
        r == (v@ == bytes_string()),
{
    let w: [u8; 6] = [83, 116, 114, 105, 110, 103];
    proof {
        assert(w@ =~= bytes_string());
    }
    name_is(v, w.as_slice())
}

fn is_boolean_name(v: &Vec<u8>) -> (r: bool)
    ensures
        r == (v@ == bytes_boolean()),
{
    let w: [u8; 7] = [66, 111, 111, 108, 101, 97, 110];
    proof {
        assert(w@ =~= bytes_boolean());
    }
    name_is(v, w.as_slice())
}

fn is_array_name(v: &Vec<u8>) -> (r: bool)
    ensures
        r == (v@ == bytes_array()),
{
    let w: [u8; 5] = [65, 114, 114, 97, 121];
    proof {
        assert(w@ =~= bytes_array());
    }
    name_is(v, w.as_slice())
}

fn is_main_name(v: &Vec<u8>) -> (r: bool)
    ensures
        r == (v@ == bytes_main()),
{
    let w: [u8; 4] = [109, 97, 105, 110];
    proof {
        assert(w@ =~= bytes_main());
    }
    name_is(v, w.as_slice())
}

pub(crate) fn is_print_name(v: &Vec<u8>) -> (r: bool)
    ensures
        r == (v@ == model::bytes_print()),
{
    let w: [u8; 5] = [112, 114, 105, 110, 116];
    proof {
        assert(w@ =~= model::bytes_print());
    }
    name_is(v, w.as_slice())
}

pub(crate) fn is_println_name(v: &Vec<u8>) -> (r: bool)
    ensures
        r == (v@ == model::bytes_println()),
{
    let w: [u8; 7] = [112, 114, 105, 110, 116, 108, 110];
    proof {
        assert(w@ =~= model::bytes_println());
    }
    name_is(v, w.as_slice())
}

pub(crate) fn is_array_of_name(v: &Vec<u8>) -> (r: bool)
    ensures
        r == (v@ == model::bytes_array_of()),
{
    let w: [u8; 7] = [97, 114, 114, 97, 121, 79, 102];
    proof {
        assert(w@ =~= model::bytes_array_of());
    }
    name_is(v, w.as_slice())
}

pub(crate) fn is_readln_name(v: &Vec<u8>) -> (r: bool)
    ensures
        r == (v@ == model::bytes_readln()),
{
    let w: [u8; 6] = [114, 101, 97, 100, 108, 110];
    proof {
        assert(w@ =~= model::bytes_readln());
    }
    name_is(v, w.as_slice())
}

pub(crate) fn is_readln_int_name(v: &Vec<u8>) -> (r: bool)
    ensures
        r == (v@ == model::bytes_readln_int()),
{
    let w: [u8; 9] = [114, 101, 97, 100, 108, 110, 73, 110, 116];
    proof {
        assert(w@ =~= model::bytes_readln_int());
    }
    name_is(v, w.as_slice())
}

pub(crate) fn is_readln_boolean_name(v: &Vec<u8>) -> (r: bool)
    ensures
        r == (v@ == model::bytes_readln_boolean()),
{
    let w: [u8; 13] = [114, 101, 97, 100, 108, 110, 66, 111, 111, 108, 101, 97, 110];
    proof {
        assert(w@ =~= model::bytes_readln_boolean());
    }
    name_is(v, w.as_slice())
}

impl Default for Context {
    /// A fresh state with nothing recorded.
    fn default() -> (r: Context)
        ensures
            r@ == spec_ctx_default(),
    {
        let r = Context {
            current_ret_type: None,
            last_span: None,
            functions: Vec::new(),
            scopes: Vec::new(),
            errors: Vec::new(),
        };
        proof {
            assert(r@.functions =~= spec_ctx_default().functions);
            assert(r@.scopes =~= spec_ctx_default().scopes);
            assert(r@.errors =~= spec_ctx_default().errors);
        }
        r
    }
}

/// The last matching binding of one frame.
fn frame_lookup(frame: &Vec<(Ident, ExprType)>, name: &Vec<u8>) -> (r: Option<ExprType>)
    ensures
        r == spec_frame_lookup(frame_view(frame@), name@),
{
    let mut j: usize = frame.len();
    proof {
        assert(frame_view(frame@).subrange(0, frame@.len() as int) =~= frame_view(frame@));
    }
    while j > 0
        invariant
            j <= frame@.len(),
            spec_frame_lookup(frame_view(frame@), name@) == spec_frame_lookup(
                frame_view(frame@).subrange(0, j as int),
                name@,
            ),
        decreases j,
    {
        proof {
            assert(frame_view(frame@).subrange(0, j as int).last() == frame_view(frame@)[j - 1]);
            assert(frame_view(frame@).subrange(0, j as int).drop_last() =~= frame_view(
                frame@,
            ).subrange(0, j - 1));
        }
        if bytes_eq(&frame[j - 1].0.0, name) {
            return Some(expr_type_clone(&frame[j - 1].1));
        }
        j -= 1;
    }
    proof {
        assert(frame_view(frame@).subrange(0, 0) =~= Seq::<(Seq<u8>, ExprType)>::empty());
    }
    None
}

impl Context {
    /// A diagnostic at the given span.
    pub fn error_with_span(&mut self, err: CheckErr, span: Span)
        ensures
            final(self)@ == spec_error_with_span(old(self)@, check_err_view(err), span),
    {
        let ghost e = check_err_view(err);
        self.errors.push((span, err));
        proof {
            assert(errors_view(self.errors@) =~= errors_view(old(self).errors@).push((span, e)));
        }
    }

    /// A diagnostic at the span last entered.
    pub fn error(&mut self, err: CheckErr)
        ensures
            final(self)@ == spec_error(old(self)@, check_err_view(err)),
    {
        let span = match self.last_span {
            Some(s) => s,
            None => Span { lo: 0, hi: 0 },
        };
        self.error_with_span(err, span);
    }

    pub fn push_scope(&mut self)
        ensures
            final(self)@ == spec_push_scope(old(self)@),
    {
        self.scopes.push(Vec::new());
        proof {
            assert(frame_view(Seq::<(Ident, ExprType)>::empty()) =~= Seq::<
                (Seq<u8>, ExprType),
            >::empty());
            assert(scopes_view(self.scopes@) =~= scopes_view(old(self).scopes@).push(
                Seq::empty(),
            ));
        }
    }

    pub fn pop_scope(&mut self)
        ensures
            final(self)@ == spec_pop_scope(old(self)@),
    {
        if self.scopes.len() > 0 {
            let _ = self.scopes.pop();
            proof {
                assert(scopes_view(self.scopes@) =~= scopes_view(old(self).scopes@).drop_last());
            }
        } else {
            proof {
                assert(scopes_view(self.scopes@).len() == 0);
            }
        }
    }

    /// Scope lookup, innermost frame first.
    pub fn find_var_type(&self, name: &Vec<u8>) -> (r: Option<ExprType>)
        ensures
            r == spec_lookup_var(self@.scopes, name@),
    {
        let mut j: usize = self.scopes.len();
        proof {
            assert(scopes_view(self.scopes@).subrange(0, self.scopes@.len() as int) =~= scopes_view(
                self.scopes@,
            ));
        }
        while j > 0
            invariant
                j <= self.scopes@.len(),
                spec_lookup_var(scopes_view(self.scopes@), name@) == spec_lookup_var(
                    scopes_view(self.scopes@).subrange(0, j as int),
                    name@,
                ),
            decreases j,
        {
            proof {
                assert(scopes_view(self.scopes@).subrange(0, j as int).last() == scopes_view(
                    self.scopes@,
                )[j - 1]);
                assert(scopes_view(self.scopes@).subrange(0, j as int).drop_last() =~= scopes_view(
                    self.scopes@,
                ).subrange(0, j - 1));
            }
            match frame_lookup(&self.scopes[j - 1], name) {
                Some(t) => {
                    return Some(t);
                },
                None => {},
            }
            j -= 1;
        }
        proof {
            assert(scopes_view(self.scopes@).subrange(0, 0) =~= Seq::<FrameS>::empty());
        }
        None
    }

    /// A binding added to the innermost frame; redeclaration in that
    /// same frame is an error. The scope stack is never empty when the
    /// checker adds a binding; an empty stack leaves the state as it is.
    pub fn add_var_type(&mut self, ident: Ident, ty: ExprType)
        ensures
            final(self)@ == spec_add_var(old(self)@, ident.0@, ty),
    {
        let n = self.scopes.len();
        if n == 0 {
            return;
        }
        match self.scopes.pop() {
            Some(mut frame) => {
                proof {
                    assert(scopes_view(old(self).scopes@).last() == frame_view(frame@));
                }
                match frame_lookup(&frame, &ident.0) {
                    Some(_) => {
                        self.scopes.push(frame);
                        proof {
                            assert(scopes_view(self.scopes@) =~= scopes_view(old(self).scopes@));
                        }
                        self.error(CheckErr::BindingAlreadyDefined(ident.0));
                    },
                    None => {
                        let ghost old_frame = frame_view(frame@);
                        let ghost name = ident.0@;
                        frame.push((ident, ty));
                        proof {
                            assert(frame_view(frame@) =~= old_frame.push((name, ty)));
                        }
                        self.scopes.push(frame);
                        proof {
                            assert(scopes_view(self.scopes@) =~= scopes_view(
                                old(self).scopes@,
                            ).update(
                                scopes_view(old(self).scopes@).len() - 1,
                                old_frame.push((name, ty)),
                            ));
                        }
                    },
                }
            },
            None => {},
        }
    }

    /// The index of the signature bound to a name, if any.
    fn find_fun_index(&self, name: &Vec<u8>) -> (r: Option<usize>)
        ensures
            match r {
                Some(i) => i < self.functions@.len() && spec_fun_lookup(self@.functions, name@)
                    == Some(fun_type_view(self.functions@[i as int].1)),
                None => spec_fun_lookup(self@.functions, name@) is None,
            },
    {
        let mut i: usize = 0;
        proof {
            assert(funs_table_view(self.functions@).skip(0) =~= funs_table_view(self.functions@));
        }
        while i < self.functions.len()
            invariant
                i <= self.functions@.len(),
                spec_fun_lookup(funs_table_view(self.functions@), name@) == spec_fun_lookup(
                    funs_table_view(self.functions@).skip(i as int),
                    name@,
                ),
            decreases self.functions@.len() - i,
        {
            proof {
                assert(funs_table_view(self.functions@).skip(i as int).first() == funs_table_view(
                    self.functions@,
                )[i as int]);
                assert(funs_table_view(self.functions@).skip(i as int).drop_first()
                    =~= funs_table_view(self.functions@).skip(i + 1));
            }
            if bytes_eq(&self.functions[i].0.0, name) {
                return Some(i);
            }
            i += 1;
        }
        proof {
            assert(funs_table_view(self.functions@).skip(self.functions@.len() as int) =~= Seq::<
                (Seq<u8>, FunTypeS),
            >::empty());
        }
        None
    }

    /// The signature table built from the declarations in order; a
    /// repeated name is reported and the earlier entry kept.
    pub fn get_functions(&mut self, prog: &Program)
        ensures
            final(self)@ == spec_get_functions(old(self)@, program_view(*prog).functions),
    {
        let n = prog.functions.len();
        let mut i: usize = 0;
        proof {
            assert(funs_view(prog.functions@).skip(0) =~= funs_view(prog.functions@));
        }
        while i < n
            invariant
                i <= n == prog.functions@.len(),
                spec_get_functions(old(self)@, funs_view(prog.functions@)) == spec_get_functions(
                    self@,
                    funs_view(prog.functions@).skip(i as int),
                ),
            decreases n - i,
        {
            proof {
                assert(funs_view(prog.functions@).skip(i as int).first() == funs_view(
                    prog.functions@,
                )[i as int]);
                assert(funs_view(prog.functions@).skip(i as int).drop_first() =~= funs_view(
                    prog.functions@,
                ).skip(i + 1));
            }
            let f = &prog.functions[i];
            let ft = fun_type_of(f);
            match self.find_fun_index(&f.name.0) {
                Some(_) => {
                    self.error(CheckErr::FunctionAlreadyDefined(bytes_clone(&f.name.0)));
                },
                None => {
                    let ghost pre = funs_table_view(self.functions@);
                    self.functions.push((Ident(bytes_clone(&f.name.0)), ft));
                    proof {
                        assert(funs_table_view(self.functions@) =~= pre.push(
                            (f.name.0@, spec_fun_type_of(fun_view(prog.functions@[i as int]))),
                        ));
                    }
                },
            }
            i += 1;
        }
        proof {
            assert(funs_view(prog.functions@).skip(n as int) =~= Seq::<crate::ast::FunS>::empty());
        }
    }

    /// `main` must exist and take no arguments.
    pub fn check_main(&mut self)
        ensures
            final(self)@ == spec_check_main(old(self)@),
    {
        let main_name: Vec<u8> = vec![109, 97, 105, 110];
        proof {
            assert(main_name@ =~= bytes_main());
        }
        match self.find_fun_index(&main_name) {
            Some(i) => {
                if self.functions[i].1.args.len() != 0 {
                    self.error_with_span(
                        CheckErr::MainMustAcceptNoArguments,
                        Span { lo: 0, hi: 0 },
                    );
                }
            },
            None => {
                self.error(CheckErr::MainNotFound);
            },
        }
    }
}

impl Context {
    /// What a built-in name returns for the given argument types;
    /// `None` when the name is no built-in. The argument list is `None`
    /// when some argument already failed to type.
    pub fn find_predefined_fun_ret_type(
        &mut self,
        ident: &crate::ast::Spanned<Ident>,
        args: Option<&Vec<ExprType>>,
    ) -> (r: Option<ExprType>)
        ensures
            ({
                let (c, t) = model::spec_find_predefined(
                    old(self)@,
                    crate::ast::spanned_ident_view(*ident),
                    match args {
                        Some(v) => Some(v@),
                        None => None,
                    },
                );
                final(self)@ == c && r == t
            }),
    {
        if is_print_name(&ident.expr.0) || is_println_name(&ident.expr.0) {
            return Some(ExprType::Primitive(Primitive::String));
        }
        if is_array_of_name(&ident.expr.0) {
            match args {
                Some(ts) => {
                    if ts.len() == 0 {
                        self.error(CheckErr::ArrayOfMustHaveArgument);
                        return None;
                    }
                    let mut differs = false;
                    let mut k: usize = 0;
                    while k < ts.len()
                        invariant
                            k <= ts@.len(),
                            ts@.len() > 0,
                            differs == exists|j: int| 0 <= j < k && (#[trigger] ts@[j]) != ts@[0],
                        decreases ts@.len() - k,
                    {
                        if !expr_type_eq(&ts[k], &ts[0]) {
                            differs = true;
                            proof {
                                assert(ts@[k as int] != ts@[0]);
                            }
                        }
                        k += 1;
                    }
                    if differs {
                        self.error(CheckErr::ArrayOfArgumentsMustHaveSameType);
                    }
                    return Some(ExprType::Array(Box::new(expr_type_clone(&ts[0]))));
                },
                None => {
                    return None;
                },
            }
        }
        let is_r = is_readln_name(&ident.expr.0);
        let is_ri = is_readln_int_name(&ident.expr.0);
        let is_rb = is_readln_boolean_name(&ident.expr.0);
        if is_r || is_ri || is_rb {
            let arg_count: usize = match args {
                Some(ts) => ts.len(),
                None => 1,
            };
            if arg_count != 0 {
                self.error_with_span(
                    CheckErr::AcceptsNoArguments(bytes_clone(&ident.expr.0)),
                    ident.span,
                );
            }
            if is_r {
                return Some(ExprType::Primitive(Primitive::String));
            } else if is_ri {
                return Some(ExprType::Primitive(Primitive::Int));
            } else {
                return Some(ExprType::Primitive(Primitive::Boolean));
            }
        }
        None
    }

    /// The return type of a call: built-ins first, then the user table
    /// by exact argument-type-list equality.
    pub fn find_fun_ret_type(
        &mut self,
        ident: &crate::ast::Spanned<Ident>,
        args: Option<&Vec<ExprType>>,
    ) -> (r: Option<ExprType>)
        ensures
            ({
                let (c, t) = model::spec_find_fun_ret_type(
                    old(self)@,
                    crate::ast::spanned_ident_view(*ident),
                    match args {
                        Some(v) => Some(v@),
                        None => None,
                    },
                );
                final(self)@ == c && r == t
            }),
    {
        match self.find_predefined_fun_ret_type(ident, args) {
            Some(t) => Some(t),
            None => {
                match self.find_fun_index(&ident.expr.0) {
                    Some(i) => match args {
                        Some(ts) => {
                            if expr_types_eq(&self.functions[i].1.args, ts) {
                                Some(expr_type_clone(&self.functions[i].1.ret_type))
                            } else {
                                self.error(
                                    CheckErr::FunWrongArguments(bytes_clone(&ident.expr.0)),
                                );
                                None
                            }
                        },
                        None => None,
                    },
                    None => {
                        self.error_with_span(
                            CheckErr::FunNotFound(bytes_clone(&ident.expr.0)),
                            ident.span,
                        );
                        None
                    },
                }
            },
        }
    }
}

} // verus!
