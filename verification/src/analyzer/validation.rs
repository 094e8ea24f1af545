//! Validation of each node kind against the typing rules.
//!
//! Each method walks one node, records the diagnostics the rules demand,
//! and returns the node's type, `None` standing for "already reported".
//! Every contract equates the outcome with the corresponding
//! `spec_validate_*` function of the model.

use vstd::prelude::*;

use crate::analyzer::model::{spec_require_equal, spec_validate_add,
    spec_validate_args, spec_validate_assign, spec_validate_binding, spec_validate_body,
    spec_validate_call, spec_validate_cmp, spec_validate_control, spec_validate_expr,
    spec_validate_for, spec_validate_functions, spec_validate_gbi, spec_validate_if,
    spec_validate_literal, spec_validate_math, spec_validate_return, spec_validate_sbi,
    spec_validate_short, spec_validate_sp_expr, spec_validate_sp_ident, spec_validate_sp_top,
    spec_validate_stmts_all, spec_validate_top, spec_validate_while, spec_check_program,
    spec_expr_type_of, spec_param_frame};
use crate::analyzer::{CheckErr, Context, ExprType, Primitive, bytes_clone, errors_view, expr_type_clone, expr_type_eq, expr_type_of, frame_view, scopes_view};
use crate::ast::{Add, Assign, BinS, Binding, Call, ComparisonExpr, ControlExpr, Expr, For,
    GetByIndex, Ident, If, Literal, MathExpr, Program, Return, SetByIndex, ShortExpr, Spanned,
    TopExpr, While, body_view, args_view, call_view, cmp_view, control_view, expr_view, gbi_view,
    literal_view, math_view, program_view, assign_view, short_view, sp_expr_view, sp_top_view,
    spanned_ident_view, top_view, funs_view};

verus! {

broadcast use vstd::std_specs::vec::group_vec_axioms, crate::ast::group_ast_views,
    crate::analyzer::model::group_checker_model;

impl Context {
    /// A literal's type.
    pub fn validate_literal(&self, l: &Literal) -> (r: ExprType)
        ensures
            r == spec_validate_literal(literal_view(*l)),
    {
        match l {
            Literal::Int(_) => ExprType::Primitive(Primitive::Int),
            Literal::Bool(_) => ExprType::Primitive(Primitive::Boolean),
            Literal::Char(_) => ExprType::Primitive(Primitive::Char),
            Literal::String(_) => ExprType::Primitive(Primitive::String),
        }
    }

    /// The shared tail of the binary rules.
    fn require_equal(&mut self, lt: Option<ExprType>, rt: Option<ExprType>) -> (r: Option<
        ExprType,
    >)
        ensures
            ({
                let (c, t) = spec_require_equal(old(self)@, lt, rt);
                final(self)@ == c && r == t
            }),
    {
        match rt {
            None => None,
            Some(rv) => match lt {
                None => None,
                Some(lv) => {
                    if expr_type_eq(&lv, &rv) {
                        Some(rv)
                    } else {
                        self.error(CheckErr::WrongOperands);
                        None
                    }
                },
            },
        }
    }

    /// A spanned expression: its span is entered and then restored.
    pub fn validate_sp_expr(&mut self, se: &Spanned<Expr>) -> (r: Option<ExprType>)
        ensures
            ({
                let (c, t) = spec_validate_sp_expr(old(self)@, sp_expr_view(*se));
                final(self)@ == c && r == t
            }),
        decreases *se, 1int, 0int,
    {
        let saved = self.last_span;
        self.last_span = Some(se.span);
        let ty = self.validate_expr(&se.expr);
        self.last_span = saved;
        ty
    }

    /// A spanned statement, likewise.
    pub fn validate_sp_top(&mut self, st: &Spanned<TopExpr>) -> (r: Option<ExprType>)
        ensures
            ({
                let (c, t) = spec_validate_sp_top(old(self)@, sp_top_view(*st));
                final(self)@ == c && r == t
            }),
        decreases *st, 1int, 0int,
    {
        let saved = self.last_span;
        self.last_span = Some(st.span);
        let ty = self.validate_top(&st.expr);
        self.last_span = saved;
        ty
    }

    pub fn validate_expr(&mut self, e: &Expr) -> (r: Option<ExprType>)
        ensures
            ({
                let (c, t) = spec_validate_expr(old(self)@, expr_view(*e));
                final(self)@ == c && r == t
            }),
        decreases *e, 0int, 0int,
    {
        match e {
            Expr::TopExpr(t) => self.validate_top(t),
            Expr::MathExpr(m) => self.validate_math(m),
            Expr::ComparisonExpr(c) => self.validate_cmp(c),
            Expr::ShortExpr(s) => self.validate_short(s),
        }
    }

    pub fn validate_math(&mut self, m: &MathExpr) -> (r: Option<ExprType>)
        ensures
            ({
                let (c, t) = spec_validate_math(old(self)@, math_view(*m));
                final(self)@ == c && r == t
            }),
        decreases *m, 2int, 0int,
    {
        match m {
            MathExpr::Neg(e) => {
                let ty = self.validate_sp_expr(&e.0);
                match ty {
                    None => None,
                    Some(t) => {
                        if !expr_type_eq(&t, &ExprType::Primitive(Primitive::Int)) {
                            self.error(CheckErr::NegOnlyInt);
                            None
                        } else {
                            Some(t)
                        }
                    },
                }
            },
            MathExpr::BoolNeg(e) => {
                let ty = self.validate_sp_expr(&e.0);
                match ty {
                    None => None,
                    Some(t) => {
                        if !expr_type_eq(&t, &ExprType::Primitive(Primitive::Boolean)) {
                            self.error(CheckErr::BoolNegOnlyBoolean);
                            None
                        } else {
                            Some(t)
                        }
                    },
                }
            },
            MathExpr::Parens(e) => self.validate_sp_expr(&e.0),
            MathExpr::Range(b) => {
                let lt = self.validate_sp_expr(&b.left);
                let rt = self.validate_sp_expr(&b.right);
                let ty = self.require_equal(lt, rt);
                match ty {
                    None => None,
                    Some(t) => Some(ExprType::Range(Box::new(t))),
                }
            },
            MathExpr::Sub(b) => {
                let lt = self.validate_sp_expr(&b.left);
                let rt = self.validate_sp_expr(&b.right);
                self.require_equal(lt, rt)
            },
            MathExpr::Mul(b) => {
                let lt = self.validate_sp_expr(&b.left);
                let rt = self.validate_sp_expr(&b.right);
                self.require_equal(lt, rt)
            },
            MathExpr::Div(b) => {
                let lt = self.validate_sp_expr(&b.left);
                let rt = self.validate_sp_expr(&b.right);
                self.require_equal(lt, rt)
            },
            MathExpr::Add(b) => self.validate_add(b),
        }
    }

    /// Addition: no `Unit` side; a `String` side makes the whole sum a
    /// `String`; otherwise both sides must have equal types.
    pub fn validate_add(&mut self, a: &Add) -> (r: Option<ExprType>)
        ensures
            ({
                let (c, t) = spec_validate_add(
                    old(self)@,
                    BinS {
                        left: Box::new(sp_expr_view(*a.left)),
                        right: Box::new(sp_expr_view(*a.right)),
                    },
                );
                final(self)@ == c && r == t
            }),
        decreases *a, 2int, 0int,
    {
        let lt = self.validate_sp_expr(&a.left);
        match lt {
            None => None,
            Some(l) => {
                let rt = self.validate_sp_expr(&a.right);
                match rt {
                    None => None,
                    Some(rv) => {
                        if expr_type_eq(&l, &ExprType::Unit) || expr_type_eq(
                            &rv,
                            &ExprType::Unit,
                        ) {
                            self.error(CheckErr::CantAddUnit);
                            None
                        } else if expr_type_eq(&l, &ExprType::Primitive(Primitive::String))
                            || expr_type_eq(&rv, &ExprType::Primitive(Primitive::String)) {
                            Some(ExprType::Primitive(Primitive::String))
                        } else {
                            let lt2 = self.validate_sp_expr(&a.left);
                            let rt2 = self.validate_sp_expr(&a.right);
                            self.require_equal(lt2, rt2)
                        }
                    },
                }
            },
        }
    }

    /// The comparison rules.
    pub fn validate_cmp(&mut self, c: &ComparisonExpr) -> (r: Option<ExprType>)
        ensures
            ({
                let (cx, t) = spec_validate_cmp(old(self)@, cmp_view(*c));
                final(self)@ == cx && r == t
            }),
        decreases *c, 2int, 0int,
    {
        let (lt, rt) = match c {
            ComparisonExpr::LessThan(b) => {
                let lt = self.validate_sp_expr(&b.left);
                (lt, self.validate_sp_expr(&b.right))
            },
            ComparisonExpr::MoreThan(b) => {
                let lt = self.validate_sp_expr(&b.left);
                (lt, self.validate_sp_expr(&b.right))
            },
            ComparisonExpr::And(b) => {
                let lt = self.validate_sp_expr(&b.left);
                (lt, self.validate_sp_expr(&b.right))
            },
            ComparisonExpr::Or(b) => {
                let lt = self.validate_sp_expr(&b.left);
                (lt, self.validate_sp_expr(&b.right))
            },
        };
        let ty = self.require_equal(lt, rt);
        let is_bool_op = match c {
            ComparisonExpr::And(_) => true,
            ComparisonExpr::Or(_) => true,
            _ => false,
        };
        if is_bool_op {
            match ty {
                None => None,
                Some(t) => {
                    if !expr_type_eq(&t, &ExprType::Primitive(Primitive::Boolean)) {
                        self.error(CheckErr::BoolOperatorsOnlyBooleans);
                        None
                    } else {
                        Some(ExprType::Primitive(Primitive::Boolean))
                    }
                },
            }
        } else {
            match ty {
                Some(ExprType::Primitive(p)) => {
                    if matches!(p, Primitive::Boolean) {
                        self.error(CheckErr::CantCompareBooleans);
                        None
                    } else {
                        Some(ExprType::Primitive(Primitive::Boolean))
                    }
                },
                Some(_) => {
                    self.error(CheckErr::CantCompareTypes);
                    None
                },
                None => {
                    self.error(CheckErr::CantCompareTypes);
                    None
                },
            }
        }
    }

    /// The innermost rules.
    pub fn validate_short(&mut self, s: &ShortExpr) -> (r: Option<ExprType>)
        ensures
            ({
                let (c, t) = spec_validate_short(old(self)@, short_view(*s));
                final(self)@ == c && r == t
            }),
        decreases *s, 2int, 0int,
    {
        match s {
            ShortExpr::Ident(name) => match self.find_var_type(&name.0) {
                Some(t) => Some(t),
                None => {
                    self.error(CheckErr::IdentNotFound(bytes_clone(&name.0)));
                    None
                },
            },
            ShortExpr::GetByIndex(g) => self.validate_gbi(g),
            ShortExpr::Literal(l) => Some(self.validate_literal(l)),
        }
    }

    /// The spanned base name of an indexing node.
    fn validate_sp_ident(&mut self, si: &Spanned<Ident>) -> (r: Option<ExprType>)
        ensures
            ({
                let (c, t) = spec_validate_sp_ident(old(self)@, spanned_ident_view(*si));
                final(self)@ == c && r == t
            }),
    {
        let saved = self.last_span;
        self.last_span = Some(si.span);
        let ty = match self.find_var_type(&si.expr.0) {
            Some(t) => Some(t),
            None => {
                self.error(CheckErr::IdentNotFound(bytes_clone(&si.expr.0)));
                None
            },
        };
        self.last_span = saved;
        ty
    }

    /// Indexing: the index must be `Int` and the base an array or a
    /// string, the two reported independently.
    pub fn validate_gbi(&mut self, g: &GetByIndex) -> (r: Option<ExprType>)
        ensures
            ({
                let (c, t) = spec_validate_gbi(old(self)@, gbi_view(*g));
                final(self)@ == c && r == t
            }),
        decreases *g, 1int, 0int,
    {
        let base = self.validate_sp_ident(&g.ident);
        let index = self.validate_sp_expr(&g.index);
        match index {
            Some(t) => {
                if !expr_type_eq(&t, &ExprType::Primitive(Primitive::Int)) {
                    self.error_with_span(CheckErr::OnlyIntIndex, g.index.span);
                }
            },
            None => {},
        }
        match base {
            None => None,
            Some(ExprType::Array(t)) => Some(*t),
            Some(ExprType::Primitive(p)) => {
                if matches!(p, Primitive::String) {
                    Some(ExprType::Primitive(Primitive::Char))
                } else {
                    self.error(CheckErr::IndexOnlyArraysAndStrings);
                    None
                }
            },
            Some(_) => {
                self.error(CheckErr::IndexOnlyArraysAndStrings);
                None
            },
        }
    }

    /// A call's arguments from position `i` on, validated in order; the
    /// types of those that succeeded, in order.
    fn validate_args_from(&mut self, args: &Vec<Spanned<Expr>>, i: usize) -> (r: Vec<ExprType>)
        requires
            i <= args@.len(),
        ensures
            ({
                let (c, ts) = spec_validate_args(old(self)@, args_view(args@).skip(i as int));
                final(self)@ == c && r@ == ts
            }),
        decreases *args, 1int, args@.len() - i,
    {
        if i >= args.len() {
            proof {
                assert(args_view(args@).skip(i as int) =~= Seq::<
                    Spanned<crate::ast::ExprS>,
                >::empty());
            }
            return Vec::new();
        }
        proof {
            assert(args_view(args@).skip(i as int).first() == args_view(args@)[i as int]);
            assert(args_view(args@).skip(i as int).drop_first() =~= args_view(args@).skip(i + 1));
        }
        let ty = self.validate_sp_expr(&args[i]);
        let mut rest = self.validate_args_from(args, i + 1);
        match ty {
            Some(t) => {
                let ghost rv = rest@;
                rest.insert(0, t);
                proof {
                    assert(rest@ =~= seq![t] + rv);
                }
                rest
            },
            None => rest,
        }
    }

    /// A call: its arguments, then the callee by name and exact
    /// argument types.
    pub fn validate_call(&mut self, c: &Call) -> (r: Option<ExprType>)
        ensures
            ({
                let (cx, t) = spec_validate_call(old(self)@, call_view(*c));
                final(self)@ == cx && r == t
            }),
        decreases *c, 2int, 0int,
    {
        proof {
            assert(args_view(c.args@).skip(0) =~= args_view(c.args@));
        }
        let tys = self.validate_args_from(&c.args, 0);
        if tys.len() == c.args.len() {
            self.find_fun_ret_type(&c.name, Some(&tys))
        } else {
            self.find_fun_ret_type(&c.name, None)
        }
    }

    /// A nested body from position `i` on; false when some statement
    /// failed and the walk of this body stopped there.
    fn validate_body_from(&mut self, body: &Vec<Spanned<TopExpr>>, i: usize) -> (ok: bool)
        requires
            i <= body@.len(),
        ensures
            ({
                let (c, k) = spec_validate_body(old(self)@, body_view(body@).skip(i as int));
                final(self)@ == c && ok == k
            }),
        decreases *body, 1int, body@.len() - i,
    {
        if i >= body.len() {
            proof {
                assert(body_view(body@).skip(i as int) =~= Seq::<
                    Spanned<crate::ast::TopExprS>,
                >::empty());
            }
            return true;
        }
        proof {
            assert(body_view(body@).skip(i as int).first() == body_view(body@)[i as int]);
            assert(body_view(body@).skip(i as int).drop_first() =~= body_view(body@).skip(i + 1));
        }
        let ty = self.validate_sp_top(&body[i]);
        match ty {
            None => false,
            Some(_) => self.validate_body_from(body, i + 1),
        }
    }

    /// A function's top-level statements from `i` on; the walk goes on
    /// past failures.
    fn validate_stmts_all_from(&mut self, body: &Vec<Spanned<TopExpr>>, i: usize)
        requires
            i <= body@.len(),
        ensures
            final(self)@ == spec_validate_stmts_all(old(self)@, body_view(body@).skip(i as int)),
        decreases *body, 2int, body@.len() - i,
    {
        if i >= body.len() {
            proof {
                assert(body_view(body@).skip(i as int) =~= Seq::<
                    Spanned<crate::ast::TopExprS>,
                >::empty());
            }
            return ;
        }
        proof {
            assert(body_view(body@).skip(i as int).first() == body_view(body@)[i as int]);
            assert(body_view(body@).skip(i as int).drop_first() =~= body_view(body@).skip(i + 1));
        }
        let _ = self.validate_sp_top(&body[i]);
        self.validate_stmts_all_from(body, i + 1);
    }

    pub fn validate_control(&mut self, c: &ControlExpr) -> (r: Option<ExprType>)
        ensures
            ({
                let (cx, t) = spec_validate_control(old(self)@, control_view(*c));
                final(self)@ == cx && r == t
            }),
        decreases *c, 2int, 0int,
    {
        match c {
            ControlExpr::If(e) => self.validate_if(e),
            ControlExpr::For(e) => self.validate_for(e),
            ControlExpr::While(e) => self.validate_while(e),
            ControlExpr::Return(e) => self.validate_return(e),
        }
    }

    /// `if`: boolean condition; each branch in a scope of its own.
    pub fn validate_if(&mut self, e: &If) -> (r: Option<ExprType>)
        ensures
            ({
                let (c, t) = spec_validate_if(
                    old(self)@,
                    crate::ast::IfS {
                        expr: Box::new(sp_expr_view(*e.expr)),
                        body: body_view(e.body@),
                        else_branch: body_view(e.else_branch@),
                    },
                );
                final(self)@ == c && r == t
            }),
        decreases *e, 1int, 0int,
    {
        let cond = self.validate_sp_expr(&e.expr);
        match cond {
            None => None,
            Some(t) => {
                if expr_type_eq(&t, &ExprType::Primitive(Primitive::Boolean)) {
                    self.push_scope();
                    proof {
                        assert(body_view(e.body@).skip(0) =~= body_view(e.body@));
                    }
                    let ok = self.validate_body_from(&e.body, 0);
                    if !ok {
                        return None;
                    }
                    self.pop_scope();
                    self.push_scope();
                    proof {
                        assert(body_view(e.else_branch@).skip(0) =~= body_view(e.else_branch@));
                    }
                    let ok2 = self.validate_body_from(&e.else_branch, 0);
                    if !ok2 {
                        return None;
                    }
                    self.pop_scope();
                    Some(ExprType::Unit)
                } else {
                    self.error(CheckErr::ConditionMustBeBoolean);
                    None
                }
            },
        }
    }

    /// `for`: an array or range iterable; the loop variable bound to the
    /// element type in a fresh scope.
    pub fn validate_for(&mut self, e: &For) -> (r: Option<ExprType>)
        ensures
            ({
                let (c, t) = spec_validate_for(
                    old(self)@,
                    crate::ast::ForS {
                        var: e.var.0@,
                        iterable: Box::new(sp_expr_view(*e.iterable)),
                        body: body_view(e.body@),
                    },
                );
                final(self)@ == c && r == t
            }),
        decreases *e, 1int, 0int,
    {
        let iter = self.validate_sp_expr(&e.iterable);
        match iter {
            None => None,
            Some(t) => {
                let elem: Option<ExprType> = match t {
                    ExprType::Array(b) => Some(*b),
                    ExprType::Range(b) => Some(*b),
                    _ => None,
                };
                match elem {
                    None => {
                        self.error(CheckErr::OnlyArrayAndRangeIterable);
                        None
                    },
                    Some(elem) => {
                        self.push_scope();
                        self.add_var_type(Ident(bytes_clone(&e.var.0)), elem);
                        proof {
                            assert(body_view(e.body@).skip(0) =~= body_view(e.body@));
                        }
                        let ok = self.validate_body_from(&e.body, 0);
                        if !ok {
                            return None;
                        }
                        self.pop_scope();
                        Some(ExprType::Unit)
                    },
                }
            },
        }
    }

    /// `while`: boolean condition; the body in a scope of its own.
    pub fn validate_while(&mut self, e: &While) -> (r: Option<ExprType>)
        ensures
            ({
                let (c, t) = spec_validate_while(
                    old(self)@,
                    crate::ast::WhileS {
                        expr: Box::new(sp_expr_view(*e.expr)),
                        body: body_view(e.body@),
                    },
                );
                final(self)@ == c && r == t
            }),
        decreases *e, 1int, 0int,
    {
        let cond = self.validate_sp_expr(&e.expr);
        match cond {
            None => None,
            Some(t) => {
                if expr_type_eq(&t, &ExprType::Primitive(Primitive::Boolean)) {
                    self.push_scope();
                    proof {
                        assert(body_view(e.body@).skip(0) =~= body_view(e.body@));
                    }
                    let ok = self.validate_body_from(&e.body, 0);
                    if !ok {
                        return None;
                    }
                    self.pop_scope();
                    Some(ExprType::Unit)
                } else {
                    self.error(CheckErr::ConditionMustBeBoolean);
                    None
                }
            },
        }
    }

    /// `return`: the value's type against the declared return type.
    pub fn validate_return(&mut self, e: &Return) -> (r: Option<ExprType>)
        ensures
            ({
                let (c, t) = spec_validate_return(
                    old(self)@,
                    crate::ast::ReturnS(
                        match e.0 {
                            Some(b) => Some(crate::ast::boxed_view(b)),
                            None => None,
                        },
                    ),
                );
                final(self)@ == c && r == t
            }),
        decreases *e, 1int, 0int,
    {
        let expected = match &self.current_ret_type {
            Some(t) => expr_type_clone(t),
            None => ExprType::Unit,
        };
        match &e.0 {
            Some(inner) => {
                let ty = self.validate_sp_expr(inner);
                match ty {
                    None => None,
                    Some(actual) => {
                        if !expr_type_eq(&actual, &expected) {
                            self.error(CheckErr::WrongReturnType);
                        }
                        Some(ExprType::Unit)
                    },
                }
            },
            None => {
                if !expr_type_eq(&expected, &ExprType::Unit) {
                    self.error(CheckErr::WrongReturnType);
                }
                Some(ExprType::Unit)
            },
        }
    }

    /// `val`/`var`: type the right-hand side and bind the name.
    pub fn validate_binding(&mut self, b: &Binding) -> (r: Option<ExprType>)
        ensures
            ({
                let (c, t) = spec_validate_binding(
                    old(self)@,
                    crate::ast::BindingS { is_mut: b.is_mut, set: assign_view(b.set) },
                );
                final(self)@ == c && r == t
            }),
        decreases *b, 2int, 0int,
    {
        let ty = self.validate_sp_expr(&b.set.expr);
        match ty {
            None => None,
            Some(t) => {
                let tc = expr_type_clone(&t);
                self.add_var_type(Ident(bytes_clone(&b.set.name.expr.0)), tc);
                Some(t)
            },
        }
    }

    /// `x = e`: the name must be bound with exactly the value's type.
    pub fn validate_assign(&mut self, a: &Assign) -> (r: Option<ExprType>)
        ensures
            ({
                let (c, t) = spec_validate_assign(old(self)@, assign_view(*a));
                final(self)@ == c && r == t
            }),
        decreases *a, 2int, 0int,
    {
        let ty = self.validate_sp_expr(&a.expr);
        match self.find_var_type(&a.name.expr.0) {
            Some(expected) => match ty {
                None => None,
                Some(t) => {
                    if !expr_type_eq(&expected, &t) {
                        self.error(CheckErr::VariableDifferentType(bytes_clone(&a.name.expr.0)));
                        None
                    } else {
                        Some(ExprType::Unit)
                    }
                },
            },
            None => {
                self.error_with_span(
                    CheckErr::VariableNotFoundInScope(bytes_clone(&a.name.expr.0)),
                    a.name.span,
                );
                None
            },
        }
    }

    /// `a[i] = e`: the element read back must match the value.
    pub fn validate_sbi(&mut self, s: &SetByIndex) -> (r: Option<ExprType>)
        ensures
            ({
                let (c, t) = spec_validate_sbi(
                    old(self)@,
                    crate::ast::SetByIndexS {
                        get_by_index: gbi_view(s.get_by_index),
                        expr: Box::new(sp_expr_view(*s.expr)),
                    },
                );
                final(self)@ == c && r == t
            }),
        decreases *s, 2int, 0int,
    {
        let lt = self.validate_gbi(&s.get_by_index);
        let rt = self.validate_sp_expr(&s.expr);
        self.require_equal(lt, rt)
    }

    pub fn validate_top(&mut self, t: &TopExpr) -> (r: Option<ExprType>)
        ensures
            ({
                let (c, ty) = spec_validate_top(old(self)@, top_view(*t));
                final(self)@ == c && r == ty
            }),
        decreases *t, 3int, 0int,
    {
        match t {
            TopExpr::Call(c) => self.validate_call(c),
            TopExpr::Binding(b) => self.validate_binding(b),
            TopExpr::Assign(a) => self.validate_assign(a),
            TopExpr::ControlExpr(c) => self.validate_control(c),
            TopExpr::SetByIndex(s) => self.validate_sbi(s),
        }
    }

    /// Every function body walked under its parameter frame, with the
    /// declared return type current.
    pub fn validate_functions(&mut self, prog: &Program)
        ensures
            final(self)@ == spec_validate_functions(old(self)@, program_view(*prog).functions),
    {
        let n = prog.functions.len();
        let mut i: usize = 0;
        proof {
            assert(funs_view(prog.functions@).skip(0) =~= funs_view(prog.functions@));
        }
        while i < n
            invariant
                i <= n == prog.functions@.len(),
                spec_validate_functions(old(self)@, funs_view(prog.functions@))
                    == spec_validate_functions(
                    self@,
                    funs_view(prog.functions@).skip(i as int),
                ),
            decreases n - i,
        {
            proof {
                assert(funs_view(prog.functions@).skip(i as int).first() == funs_view(
                    prog.functions@,
                )[i as int]);
                assert(funs_view(prog.functions@).skip(i as int).drop_first() =~= funs_view(
                    prog.functions@,
                ).skip(i + 1));
            }
            let f = &prog.functions[i];
            let rt = match &f.ret_type {
                Some(t) => expr_type_of(t),
                None => ExprType::Unit,
            };
            self.current_ret_type = Some(rt);

            let mut frame: Vec<(Ident, ExprType)> = Vec::new();
            let mut k: usize = 0;
            while k < f.args.len()
                invariant
                    k <= f.args@.len(),
                    frame@.len() == k,
                    forall|j: int|
                        0 <= j < k ==> (#[trigger] frame@[j]).0.0@ == f.args@[j].0.0@
                            && frame@[j].1 == spec_expr_type_of(
                            crate::ast::type_view(f.args@[j].1),
                        ),
                decreases f.args@.len() - k,
            {
                frame.push((Ident(bytes_clone(&f.args[k].0.0)), expr_type_of(&f.args[k].1)));
                k += 1;
            }
            proof {
                assert(frame_view(frame@) =~= spec_param_frame(
                    crate::ast::params_view(f.args@),
                ));
            }
            let ghost pre_scopes = scopes_view(self.scopes@);
            let ghost fv = frame_view(frame@);
            self.scopes.push(frame);
            proof {
                assert(scopes_view(self.scopes@) =~= pre_scopes.push(fv));
            }

            proof {
                assert(body_view(f.body@).skip(0) =~= body_view(f.body@));
            }
            self.validate_stmts_all_from(&f.body, 0);
            self.pop_scope();
            i += 1;
        }
        proof {
            assert(funs_view(prog.functions@).skip(n as int) =~= Seq::<crate::ast::FunS>::empty());
        }
    }
}

/// The whole check: the signature table, the `main` requirement, then
/// every function body; the diagnostics come back in the order raised,
/// and an empty list is the sole acceptance signal.
pub fn check_program(prog: &Program) -> (r: Vec<(crate::lexer::Span, CheckErr)>)
    ensures
        errors_view(r@) == spec_check_program(program_view(*prog)),
{
    let mut context = Context::default();
    context.get_functions(prog);
    context.check_main();
    context.validate_functions(prog);
    context.errors
}

} // verus!
