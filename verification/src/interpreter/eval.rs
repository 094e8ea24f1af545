//! Evaluation of each node kind, and the call machinery.
//!
//! Every function takes the immutable function table and the mutable
//! state side by side, and its contract equates the effect with the
//! big-step semantics of the model. A user-function call and a `while`
//! iteration each burn one unit of fuel.

use vstd::prelude::*;
use vstd::pervasive::VecAdditionalExecFns;

use crate::analyzer::{bytes_clone, bytes_eq};
use crate::ast::{Add, Assign, BinS, Binding, Call, ComparisonExpr, ControlExpr, Expr, For, Fun,
    FunS, GetByIndex, Ident, If, Literal, MathExpr, Program, Return, SetByIndex, ShortExpr,
    Spanned, TopExpr, While, body_view, args_view, boxed_view, call_view, cmp_view, control_view,
    expr_view, funs_view, gbi_view, math_view, program_view, assign_view, short_view,
    sp_expr_view, sp_top_view, top_view};
use crate::ast::MathExprS;
use crate::interpreter::model::{ObjV, RtErr, StateS, spec_bind_frame, spec_call_function,
    spec_call_predefined, spec_eval_args, spec_eval_assign, spec_eval_binding,
    spec_eval_body, spec_eval_call, spec_eval_cmp, spec_eval_control, spec_eval_expr,
    spec_eval_for, spec_eval_for_items, spec_eval_gbi, spec_eval_if, spec_eval_math,
    spec_eval_return, spec_eval_sbi, spec_eval_short, spec_eval_sp_expr, spec_eval_sp_top,
    spec_eval_top, spec_eval_while, spec_fun_find, spec_iter_items, spec_print_objs, spec_range_items,
    spec_run, spec_wrapping_div, spec_wrapping_neg,
    spec_initial_state};
use crate::interpreter::{Context, Object, State, arrays_view, input_view, mk_state, obj_clone,
    obj_lt, obj_text, obj_view, parse_bool_line, parse_i32_line, rframe_view, row_view,
    rres_view, rscopes_view, set_in_scopes};

verus! {

broadcast use vstd::std_specs::vec::group_vec_axioms, crate::ast::group_ast_views,
    crate::interpreter::model::group_eval_model;

/// The function a name is bound to: with a repeated name the latest
/// declaration wins.
fn find_fun_last(funs: &Vec<Fun>, name: &Vec<u8>) -> (r: Option<usize>)
    ensures
        match r {
            Some(i) => i < funs@.len() && spec_fun_find(funs_view(funs@), name@) == Some(
                crate::ast::fun_view(funs@[i as int]),
            ),
            None => spec_fun_find(funs_view(funs@), name@) is None,
        },
{
    let mut j: usize = funs.len();
    proof {
        assert(funs_view(funs@).subrange(0, funs@.len() as int) =~= funs_view(funs@));
    }
    while j > 0
        invariant
            j <= funs@.len(),
            spec_fun_find(funs_view(funs@), name@) == spec_fun_find(
                funs_view(funs@).subrange(0, j as int),
                name@,
            ),
        decreases j,
    {
        proof {
            assert(funs_view(funs@).subrange(0, j as int).last() == funs_view(funs@)[j - 1]);
            assert(funs_view(funs@).subrange(0, j as int).drop_last() =~= funs_view(
                funs@,
            ).subrange(0, j - 1));
        }
        if bytes_eq(&funs[j - 1].name.0, name) {
            return Some(j - 1);
        }
        j -= 1;
    }
    proof {
        assert(funs_view(funs@).subrange(0, 0) =~= Seq::<FunS>::empty());
    }
    None
}

/// Printing the values from position `i` on, in order.
fn print_from(st: &mut State, args: &Vec<Object>, i: usize, Ghost(funs): Ghost<Seq<FunS>>) -> (r:
    Result<Object, RtErr>)
    requires
        i <= args@.len(),
    ensures
        ({
            let (c, rr) = spec_print_objs(mk_state(funs, *old(st)), row_view(args@).skip(i as int));
            mk_state(funs, *final(st)) == c && rres_view(r) == rr
        }),
    decreases args@.len() - i,
{
    if i >= args.len() {
        proof {
            assert(row_view(args@).skip(i as int) =~= Seq::<ObjV>::empty());
        }
        return Ok(Object::Unit);
    }
    proof {
        assert(row_view(args@).skip(i as int).first() == row_view(args@)[i as int]);
        assert(row_view(args@)[i as int] == obj_view(args@[i as int]));
        assert(row_view(args@).skip(i as int).drop_first() =~= row_view(args@).skip(i + 1));
    }
    match obj_text(&args[i]) {
        None => Err(RtErr::BrokenInvariant),
        Some(text) => {
            let ghost pre = st.output@;
            let mut k: usize = 0;
            while k < text.len()
                invariant
                    k <= text@.len(),
                    st.output@ == pre + text@.subrange(0, k as int),
                    st.scopes == old(st).scopes,
                    st.arrays == old(st).arrays,
                    st.ret_item == old(st).ret_item,
                    st.input == old(st).input,
                    st.in_pos == old(st).in_pos,
                decreases text@.len() - k,
            {
                st.output.push(text[k]);
                proof {
                    assert(text@.subrange(0, k + 1) =~= text@.subrange(0, k as int).push(
                        text@[k as int],
                    ));
                    assert(pre + text@.subrange(0, k as int).push(text@[k as int]) =~= (pre
                        + text@.subrange(0, k as int)).push(text@[k as int]));
                }
                k += 1;
            }
            proof {
                assert(text@.subrange(0, text@.len() as int) =~= text@);
            }
            print_from(st, args, i + 1, Ghost(funs))
        },
    }
}

/// One line taken from the input.
fn read_line(st: &mut State) -> (r: Result<Vec<u8>, RtErr>)
    ensures
        ({
            let line: Result<Seq<u8>, RtErr> = match r {
                Ok(v) => Ok(v@),
                Err(e) => Err(e),
            };
            if old(st).in_pos < old(st).input@.len() {
                final(st).in_pos == old(st).in_pos + 1 && line == Ok::<Seq<u8>, RtErr>(
                    input_view(old(st).input@)[old(st).in_pos as int],
                )
            } else {
                final(st).in_pos == old(st).in_pos && line == Err::<Seq<u8>, RtErr>(
                    RtErr::FailedToReadInput,
                )
            }
        }),
        final(st).scopes == old(st).scopes,
        final(st).arrays == old(st).arrays,
        final(st).ret_item == old(st).ret_item,
        final(st).input == old(st).input,
        final(st).output == old(st).output,
{
    if st.in_pos < st.input.len() {
        let line = bytes_clone(&st.input[st.in_pos]);
        st.in_pos = st.in_pos + 1;
        Ok(line)
    } else {
        Err(RtErr::FailedToReadInput)
    }
}

/// The built-in behind `print`: every argument stringified and
/// appended to the output transcript, in order.
pub fn print(args: Vec<Object>, state: &mut State) -> (r: Result<Object, RtErr>)
    ensures
        ({
            let (c, rr) = spec_print_objs(
                mk_state(Seq::empty(), *old(state)),
                row_view(args@),
            );
            mk_state(Seq::empty(), *final(state)) == c && rres_view(r) == rr
        }),
{
    proof {
        assert(row_view(args@).skip(0) =~= row_view(args@));
    }
    print_from(state, &args, 0, Ghost(Seq::empty()))
}

/// The built-in behind `println`: like `print`, with one line break
/// appended after all the arguments.
pub fn println(args: Vec<Object>, state: &mut State) -> (r: Result<Object, RtErr>)
    ensures
        ({
            let (c, rr) = spec_print_objs(
                mk_state(Seq::empty(), *old(state)),
                row_view(args@),
            );
            match rr {
                Ok(_) => mk_state(Seq::empty(), *final(state)) == StateS {
                    output: c.output + seq![10u8],
                    ..c
                } && rres_view(r) == Ok::<ObjV, RtErr>(ObjV::Unit),
                Err(e) => mk_state(Seq::empty(), *final(state)) == c && rres_view(r)
                    == Err::<ObjV, RtErr>(e),
            }
        }),
{
    proof {
        assert(row_view(args@).skip(0) =~= row_view(args@));
    }
    let r = print_from(state, &args, 0, Ghost(Seq::empty()));
    match r {
        Ok(_) => {
            let ghost pre = state.output@;
            state.output.push(10);
            proof {
                assert(state.output@ =~= pre + seq![10u8]);
            }
            Ok(Object::Unit)
        },
        Err(e) => Err(e),
    }
}

/// The built-in behind `arrayOf`: a fresh shared array holding the
/// arguments; the result is its handle.
#[allow(non_snake_case)]
pub fn arrayOf(args: Vec<Object>, state: &mut State) -> (r: Object)
    ensures
        arrays_view(final(state).arrays@) == arrays_view(old(state).arrays@).push(
            row_view(args@),
        ),
        obj_view(r) == ObjV::Arr(arrays_view(old(state).arrays@).len() as int),
        final(state).scopes == old(state).scopes,
        final(state).ret_item == old(state).ret_item,
        final(state).input == old(state).input,
        final(state).in_pos == old(state).in_pos,
        final(state).output == old(state).output,
{
    let h = state.arrays.len();
    let ghost row = row_view(args@);
    state.arrays.push(args);
    proof {
        assert(arrays_view(state.arrays@) =~= arrays_view(old(state).arrays@).push(row));
    }
    Object::Array(h)
}

/// The built-in behind `readln`: one line of input as a string.
#[allow(non_snake_case)]
pub fn readln(args: Vec<Object>, state: &mut State) -> (r: Result<Object, RtErr>)
    ensures
        ({
            let (c, rr) = match spec_call_predefined(
                mk_state(Seq::empty(), *old(state)),
                crate::analyzer::model::bytes_readln(),
                row_view(args@),
            ) {
                Some(out) => out,
                None => (mk_state(Seq::empty(), *old(state)), Err(RtErr::BrokenInvariant)),
            };
            mk_state(Seq::empty(), *final(state)) == c && rres_view(r) == rr
        }),
{
    proof {
        crate::analyzer::model::lemma_builtin_names_distinct();
    }
    match read_line(state) {
        Ok(line) => Ok(Object::String(line)),
        Err(e) => Err(e),
    }
}

/// The built-in behind `readlnInt`: one line parsed as a 32-bit value.
#[allow(non_snake_case)]
pub fn readlnInt(args: Vec<Object>, state: &mut State) -> (r: Result<Object, RtErr>)
    ensures
        ({
            let (c, rr) = match spec_call_predefined(
                mk_state(Seq::empty(), *old(state)),
                crate::analyzer::model::bytes_readln_int(),
                row_view(args@),
            ) {
                Some(out) => out,
                None => (mk_state(Seq::empty(), *old(state)), Err(RtErr::BrokenInvariant)),
            };
            mk_state(Seq::empty(), *final(state)) == c && rres_view(r) == rr
        }),
{
    proof {
        crate::analyzer::model::lemma_builtin_names_distinct();
    }
    match read_line(state) {
        Ok(line) => match parse_i32_line(&line) {
            Some(v) => Ok(Object::Int(v)),
            None => Err(RtErr::FailedToParseInt),
        },
        Err(e) => Err(e),
    }
}

/// The built-in behind `readlnBoolean`: one line parsed as a boolean.
#[allow(non_snake_case)]
pub fn readlnBoolean(args: Vec<Object>, state: &mut State) -> (r: Result<Object, RtErr>)
    ensures
        ({
            let (c, rr) = match spec_call_predefined(
                mk_state(Seq::empty(), *old(state)),
                crate::analyzer::model::bytes_readln_boolean(),
                row_view(args@),
            ) {
                Some(out) => out,
                None => (mk_state(Seq::empty(), *old(state)), Err(RtErr::BrokenInvariant)),
            };
            mk_state(Seq::empty(), *final(state)) == c && rres_view(r) == rr
        }),
{
    proof {
        crate::analyzer::model::lemma_builtin_names_distinct();
    }
    match read_line(state) {
        Ok(line) => match parse_bool_line(&line) {
            Some(v) => Ok(Object::Boolean(v)),
            None => Err(RtErr::FailedToParseBoolean),
        },
        Err(e) => Err(e),
    }
}

/// A built-in call, or `None` when the name is no built-in.
fn call_predefined_function(
    st: &mut State,
    name: &Vec<u8>,
    args: &Vec<Object>,
    Ghost(funs): Ghost<Seq<FunS>>,
) -> (r: Option<Result<Object, RtErr>>)
    ensures
        match r {
            Some(out) => ({
                let sp = spec_call_predefined(
                    mk_state(funs, *old(st)),
                    name@,
                    row_view(args@),
                );
                sp is Some && mk_state(funs, *final(st)) == sp->Some_0.0 && rres_view(out)
                    == sp->Some_0.1
            }),
            None => spec_call_predefined(mk_state(funs, *old(st)), name@, row_view(args@))
                is None && *final(st) == *old(st),
        },
{
    proof {
        crate::analyzer::model::lemma_builtin_names_distinct();
    }
    if crate::analyzer::is_print_name(name) {
        proof {
            assert(row_view(args@).skip(0) =~= row_view(args@));
        }
        return Some(print_from(st, args, 0, Ghost(funs)));
    }
    if crate::analyzer::is_println_name(name) {
        proof {
            assert(row_view(args@).skip(0) =~= row_view(args@));
        }
        let r = print_from(st, args, 0, Ghost(funs));
        match r {
            Ok(_) => {
                let ghost pre = st.output@;
                st.output.push(10);
                proof {
                    assert(st.output@ =~= pre + seq![10u8]);
                }
                return Some(Ok(Object::Unit));
            },
            Err(e) => {
                return Some(Err(e));
            },
        }
    }
    if crate::analyzer::is_array_of_name(name) {
        let mut copy: Vec<Object> = Vec::new();
        let mut k: usize = 0;
        while k < args.len()
            invariant
                k <= args@.len(),
                copy@.len() == k,
                forall|j: int| 0 <= j < k ==> obj_view(#[trigger] copy@[j]) == obj_view(args@[j]),
            decreases args@.len() - k,
        {
            copy.push(obj_clone(&args[k]));
            k += 1;
        }
        proof {
            assert(row_view(copy@) =~= row_view(args@));
        }
        let h = arrayOf(copy, st);
        return Some(Ok(h));
    }
    if crate::analyzer::is_readln_name(name) {
        match read_line(st) {
            Ok(line) => {
                return Some(Ok(Object::String(line)));
            },
            Err(e) => {
                return Some(Err(e));
            },
        }
    }
    if crate::analyzer::is_readln_int_name(name) {
        match read_line(st) {
            Ok(line) => match parse_i32_line(&line) {
                Some(v) => {
                    return Some(Ok(Object::Int(v)));
                },
                None => {
                    return Some(Err(RtErr::FailedToParseInt));
                },
            },
            Err(e) => {
                return Some(Err(e));
            },
        }
    }
    if crate::analyzer::is_readln_boolean_name(name) {
        match read_line(st) {
            Ok(line) => match parse_bool_line(&line) {
                Some(v) => {
                    return Some(Ok(Object::Boolean(v)));
                },
                None => {
                    return Some(Err(RtErr::FailedToParseBoolean));
                },
            },
            Err(e) => {
                return Some(Err(e));
            },
        }
    }
    None
}

/// A call: built-ins first, else the named function runs its body in a
/// fresh frame with the arguments bound positionally; one unit of fuel
/// burns per user call.
pub fn call_function(
    funs: &Vec<Fun>,
    st: &mut State,
    name: &Vec<u8>,
    args: Vec<Object>,
    fuel: u64,
) -> (r: Result<Object, RtErr>)
    ensures
        ({
            let (c, rr) = spec_call_function(
                mk_state(funs_view(funs@), *old(st)),
                name@,
                row_view(args@),
                fuel as nat,
            );
            mk_state(funs_view(funs@), *final(st)) == c && rres_view(r) == rr
        }),
    decreases fuel, 0int, *name, 0int, 0int,
{
    match call_predefined_function(st, name, &args, Ghost(funs_view(funs@))) {
        Some(out) => {
            return out;
        },
        None => {},
    }
    let fi = match find_fun_last(funs, name) {
        Some(i) => i,
        None => {
            return Err(RtErr::BrokenInvariant);
        },
    };
    if funs[fi].args.len() != args.len() {
        return Err(RtErr::BrokenInvariant);
    }
    if fuel == 0 {
        return Err(RtErr::OutOfFuel);
    }
    let mut frame: Vec<(Ident, Object)> = Vec::new();
    let mut k: usize = 0;
    while k < args.len()
        invariant
            k <= args@.len() == funs@[fi as int].args@.len(),
            fi < funs@.len(),
            frame@.len() == k,
            forall|j: int|
                0 <= j < k ==> (#[trigger] frame@[j]).0.0@ == funs@[fi as int].args@[j].0.0@
                    && obj_view(frame@[j].1) == obj_view(args@[j]),
        decreases args@.len() - k,
    {
        frame.push((Ident(bytes_clone(&funs[fi].args[k].0.0)), obj_clone(&args[k])));
        k += 1;
    }
    proof {
        assert(rframe_view(frame@) =~= spec_bind_frame(
            crate::ast::params_view(funs@[fi as int].args@),
            row_view(args@),
        ));
    }
    let ghost pre_scopes = rscopes_view(st.scopes@);
    let ghost fv = rframe_view(frame@);
    st.scopes.push(frame);
    proof {
        assert(rscopes_view(st.scopes@) =~= pre_scopes.push(fv));
        assert(body_view(funs@[fi as int].body@).skip(0) =~= body_view(funs@[fi as int].body@));
    }
    let r = eval_body_from(funs, st, &funs[fi].body, 0, fuel - 1);
    match r {
        Err(e) => Err(e),
        Ok(_) => {
            let ret = st.ret_item.take();
            st.pop();
            match ret {
                Some(o) => Ok(o),
                None => Ok(Object::Unit),
            }
        },
    }
}

/// A statement sequence from position `i` on, with the pending-return
/// slot checked after every statement.
fn eval_body_from(
    funs: &Vec<Fun>,
    st: &mut State,
    body: &Vec<Spanned<TopExpr>>,
    i: usize,
    fuel: u64,
) -> (r: Result<(), RtErr>)
    requires
        i <= body@.len(),
    ensures
        ({
            let (c, rr) = spec_eval_body(
                mk_state(funs_view(funs@), *old(st)),
                body_view(body@).skip(i as int),
                fuel as nat,
            );
            mk_state(funs_view(funs@), *final(st)) == c && (match r {
                Ok(_) => rr == Ok::<ObjV, RtErr>(ObjV::Unit),
                Err(e) => rr == Err::<ObjV, RtErr>(e),
            })
        }),
    decreases fuel, 1int, *body, 0int, body@.len() - i,
{
    if i >= body.len() {
        proof {
            assert(body_view(body@).skip(i as int) =~= Seq::<
                Spanned<crate::ast::TopExprS>,
            >::empty());
        }
        return Ok(());
    }
    proof {
        assert(body_view(body@).skip(i as int)[0] == body_view(body@)[i as int]);
        assert(body_view(body@).skip(i as int).drop_first() =~= body_view(body@).skip(i + 1));
        assert(body_view(body@).skip(i as int).subrange(
            1,
            body_view(body@).skip(i as int).len() as int,
        ) =~= body_view(body@).skip(i + 1));
    }
    let r = eval_sp_top(funs, st, &body[i], fuel);
    match r {
        Err(e) => Err(e),
        Ok(_) => {
            let stop = match &st.ret_item {
                Some(_) => true,
                None => false,
            };
            if stop {
                Ok(())
            } else {
                eval_body_from(funs, st, body, i + 1, fuel)
            }
        },
    }
}

/// The arguments of a call from position `i` on, left to right.
fn eval_args_from(
    funs: &Vec<Fun>,
    st: &mut State,
    args: &Vec<Spanned<Expr>>,
    i: usize,
    fuel: u64,
) -> (r: Result<Vec<Object>, RtErr>)
    requires
        i <= args@.len(),
    ensures
        ({
            let (c, rr) = spec_eval_args(
                mk_state(funs_view(funs@), *old(st)),
                args_view(args@).skip(i as int),
                fuel as nat,
            );
            mk_state(funs_view(funs@), *final(st)) == c && (match r {
                Ok(vs) => rr == Ok::<Seq<ObjV>, RtErr>(row_view(vs@)),
                Err(e) => rr == Err::<Seq<ObjV>, RtErr>(e),
            })
        }),
    decreases fuel, 1int, *args, 0int, args@.len() - i,
{
    if i >= args.len() {
        proof {
            assert(args_view(args@).skip(i as int) =~= Seq::<
                Spanned<crate::ast::ExprS>,
            >::empty());
            assert(row_view(Seq::<Object>::empty()) =~= Seq::<ObjV>::empty());
        }
        return Ok(Vec::new());
    }
    proof {
        assert(args_view(args@).skip(i as int)[0] == args_view(args@)[i as int]);
        assert(args_view(args@).skip(i as int).subrange(
            1,
            args_view(args@).skip(i as int).len() as int,
        ) =~= args_view(args@).skip(i + 1));
    }
    let v = match eval_sp_expr(funs, st, &args[i], fuel) {
        Ok(v) => v,
        Err(e) => {
            return Err(e);
        },
    };
    match eval_args_from(funs, st, args, i + 1, fuel) {
        Ok(mut rest) => {
            let ghost rv = row_view(rest@);
            let ghost vv = obj_view(v);
            rest.insert(0, v);
            proof {
                assert(row_view(rest@) =~= seq![vv] + rv);
            }
            Ok(rest)
        },
        Err(e) => Err(e),
    }
}

/// A spanned expression: the span plays no part at runtime.
pub fn eval_sp_expr(funs: &Vec<Fun>, st: &mut State, se: &Spanned<Expr>, fuel: u64) -> (r: Result<
    Object,
    RtErr,
>)
    ensures
        ({
            let (c, rr) = spec_eval_sp_expr(
                mk_state(funs_view(funs@), *old(st)),
                sp_expr_view(*se),
                fuel as nat,
            );
            mk_state(funs_view(funs@), *final(st)) == c && rres_view(r) == rr
        }),
    decreases fuel, 1int, *se, 0int, 0int,
{
    eval_expr(funs, st, &se.expr, fuel)
}

/// A spanned statement, likewise.
pub fn eval_sp_top(funs: &Vec<Fun>, st: &mut State, stp: &Spanned<TopExpr>, fuel: u64) -> (r:
    Result<Object, RtErr>)
    ensures
        ({
            let (c, rr) = spec_eval_sp_top(
                mk_state(funs_view(funs@), *old(st)),
                sp_top_view(*stp),
                fuel as nat,
            );
            mk_state(funs_view(funs@), *final(st)) == c && rres_view(r) == rr
        }),
    decreases fuel, 1int, *stp, 0int, 0int,
{
    eval_top(funs, st, &stp.expr, fuel)
}

pub fn eval_expr(funs: &Vec<Fun>, st: &mut State, e: &Expr, fuel: u64) -> (r: Result<
    Object,
    RtErr,
>)
    ensures
        ({
            let (c, rr) = spec_eval_expr(
                mk_state(funs_view(funs@), *old(st)),
                expr_view(*e),
                fuel as nat,
            );
            mk_state(funs_view(funs@), *final(st)) == c && rres_view(r) == rr
        }),
    decreases fuel, 1int, *e, 0int, 0int,
{
    match e {
        Expr::TopExpr(t) => eval_top(funs, st, t, fuel),
        Expr::MathExpr(m) => eval_math(funs, st, m, fuel),
        Expr::ComparisonExpr(c) => eval_cmp(funs, st, c, fuel),
        Expr::ShortExpr(s) => eval_short(funs, st, s, fuel),
    }
}

#[verifier::rlimit(100)]
pub fn eval_math(funs: &Vec<Fun>, st: &mut State, m: &MathExpr, fuel: u64) -> (r: Result<
    Object,
    RtErr,
>)
    ensures
        ({
            let (c, rr) = spec_eval_math(
                mk_state(funs_view(funs@), *old(st)),
                math_view(*m),
                fuel as nat,
            );
            mk_state(funs_view(funs@), *final(st)) == c && rres_view(r) == rr
        }),
    decreases fuel, 1int, *m, 0int, 0int,
{
    match m {
        MathExpr::Neg(e) => {
            match eval_sp_expr(funs, st, &e.0, fuel) {
                Ok(Object::Int(n)) => {
                    let v: i32 = if n == i32::MIN {
                        i32::MIN
                    } else {
                        -n
                    };
                    proof {
                        assert(v == spec_wrapping_neg(n));
                    }
                    Ok(Object::Int(v))
                },
                Ok(_) => Err(RtErr::BrokenInvariant),
                Err(e2) => Err(e2),
            }
        },
        MathExpr::BoolNeg(e) => {
            match eval_sp_expr(funs, st, &e.0, fuel) {
                Ok(Object::Boolean(b)) => Ok(Object::Boolean(!b)),
                Ok(_) => Err(RtErr::BrokenInvariant),
                Err(e2) => Err(e2),
            }
        },
        MathExpr::Parens(e) => eval_sp_expr(funs, st, &e.0, fuel),
        MathExpr::Range(b) => {
            let lv = match eval_sp_expr(funs, st, &b.left, fuel) {
                Ok(v) => v,
                Err(e2) => {
                    return Err(e2);
                },
            };
            match eval_sp_expr(funs, st, &b.right, fuel) {
                Ok(rv) => Ok(Object::Range(Box::new(lv), Box::new(rv))),
                Err(e2) => Err(e2),
            }
        },
        MathExpr::Sub(b) => {
            let lv = match eval_sp_expr(funs, st, &b.left, fuel) {
                Ok(v) => v,
                Err(e2) => {
                    return Err(e2);
                },
            };
            let rv = match eval_sp_expr(funs, st, &b.right, fuel) {
                Ok(v) => v,
                Err(e2) => {
                    return Err(e2);
                },
            };
            match (lv, rv) {
                (Object::Int(x), Object::Int(y)) => Ok(Object::Int(x.wrapping_sub(y))),
                _ => Err(RtErr::BrokenInvariant),
            }
        },
        MathExpr::Mul(b) => {
            let lv = match eval_sp_expr(funs, st, &b.left, fuel) {
                Ok(v) => v,
                Err(e2) => {
                    return Err(e2);
                },
            };
            let rv = match eval_sp_expr(funs, st, &b.right, fuel) {
                Ok(v) => v,
                Err(e2) => {
                    return Err(e2);
                },
            };
            match (lv, rv) {
                (Object::Int(x), Object::Int(y)) => Ok(Object::Int(x.wrapping_mul(y))),
                _ => Err(RtErr::BrokenInvariant),
            }
        },
        MathExpr::Div(b) => {
            let lv = match eval_sp_expr(funs, st, &b.left, fuel) {
                Ok(v) => v,
                Err(e2) => {
                    return Err(e2);
                },
            };
            let rv = match eval_sp_expr(funs, st, &b.right, fuel) {
                Ok(v) => v,
                Err(e2) => {
                    return Err(e2);
                },
            };
            match (lv, rv) {
                (Object::Int(x), Object::Int(y)) => {
                    if y == 0 {
                        Err(RtErr::DivisionByZero)
                    } else {
                        Ok(Object::Int(wrapping_div_i32(x, y)))
                    }
                },
                _ => Err(RtErr::BrokenInvariant),
            }
        },
        MathExpr::Add(b) => eval_add(funs, st, b, fuel),
    }
}

/// `+`: wrapping on two integers; with a string on either side the
/// other side is stringified and the two concatenate in operand order.
fn eval_add(funs: &Vec<Fun>, st: &mut State, a: &Add, fuel: u64) -> (r: Result<Object, RtErr>)
    ensures
        ({
            let (c, rr) = spec_eval_math(
                mk_state(funs_view(funs@), *old(st)),
                MathExprS::Add(
                    BinS { left: boxed_view(a.left), right: boxed_view(a.right) },
                ),
                fuel as nat,
            );
            mk_state(funs_view(funs@), *final(st)) == c && rres_view(r) == rr
        }),
    decreases fuel, 1int, *a, 0int, 0int,
{
    let lv = match eval_sp_expr(funs, st, &a.left, fuel) {
        Ok(v) => v,
        Err(e2) => {
            return Err(e2);
        },
    };
    let rv = match eval_sp_expr(funs, st, &a.right, fuel) {
        Ok(v) => v,
        Err(e2) => {
            return Err(e2);
        },
    };
    match (lv, rv) {
        (Object::Int(x), Object::Int(y)) => Ok(Object::Int(x.wrapping_add(y))),
        (Object::String(x), other) => {
            match obj_text(&other) {
                Some(t) => Ok(Object::String(bytes_concat(x, &t))),
                None => Err(RtErr::BrokenInvariant),
            }
        },
        (other, Object::String(y)) => {
            match obj_text(&other) {
                Some(t) => Ok(Object::String(bytes_concat(t, &y))),
                None => Err(RtErr::BrokenInvariant),
            }
        },
        _ => Err(RtErr::BrokenInvariant),
    }
}

/// One byte string extended by another.
fn bytes_concat(a: Vec<u8>, b: &Vec<u8>) -> (r: Vec<u8>)
    ensures
        r@ == a@ + b@,
{
    let ghost av = a@;
    let mut out = a;
    let mut k: usize = 0;
    while k < b.len()
        invariant
            k <= b@.len(),
            out@ == av + b@.subrange(0, k as int),
        decreases b@.len() - k,
    {
        out.push(b[k]);
        proof {
            assert(b@.subrange(0, k + 1) =~= b@.subrange(0, k as int).push(b@[k as int]));
            assert(av + b@.subrange(0, k as int).push(b@[k as int]) =~= (av + b@.subrange(
                0,
                k as int,
            )).push(b@[k as int]));
        }
        k += 1;
    }
    proof {
        assert(b@.subrange(0, b@.len() as int) =~= b@);
        assert(out@ == av + b@);
    }
    out
}

/// Division truncating toward zero, wrapping on the one overflowing
/// pair.
fn wrapping_div_i32(a: i32, b: i32) -> (r: i32)
    requires
        b != 0,
    ensures
        r == spec_wrapping_div(a, b),
{
    if b == -1 {
        if a == i32::MIN {
            i32::MIN
        } else {
            -a
        }
    } else {
        let am: u32 = if a >= 0 {
            a as u32
        } else {
            ((-(a as i64)) as u32)
        };
        let bm: u32 = if b >= 0 {
            b as u32
        } else {
            ((-(b as i64)) as u32)
        };
        let q: u32 = am / bm;
        if (a < 0) != (b < 0) {
            proof {
                assert(q <= 0x8000_0000) by (nonlinear_arith)
                    requires
                        q == am as int / bm as int,
                        am <= 0x8000_0000,
                        bm >= 1,
                ;
            }
            ((-(q as i64)) as i32)
        } else {
            proof {
                assert(q < 0x8000_0000) by (nonlinear_arith)
                    requires
                        q == am as int / bm as int,
                        am <= 0x8000_0000,
                        bm >= 2 || am < 0x8000_0000,
                        bm >= 1,
                ;
            }
            q as i32
        }
    }
}

pub fn eval_cmp(funs: &Vec<Fun>, st: &mut State, c: &ComparisonExpr, fuel: u64) -> (r: Result<
    Object,
    RtErr,
>)
    ensures
        ({
            let (cs, rr) = spec_eval_cmp(
                mk_state(funs_view(funs@), *old(st)),
                cmp_view(*c),
                fuel as nat,
            );
            mk_state(funs_view(funs@), *final(st)) == cs && rres_view(r) == rr
        }),
    decreases fuel, 1int, *c, 0int, 0int,
{
    match c {
        ComparisonExpr::And(b) => {
            match eval_sp_expr(funs, st, &b.left, fuel) {
                Err(e) => Err(e),
                Ok(Object::Boolean(true)) => eval_sp_expr(funs, st, &b.right, fuel),
                Ok(_) => Ok(Object::Boolean(false)),
            }
        },
        ComparisonExpr::Or(b) => {
            match eval_sp_expr(funs, st, &b.left, fuel) {
                Err(e) => Err(e),
                Ok(Object::Boolean(false)) => eval_sp_expr(funs, st, &b.right, fuel),
                Ok(_) => Ok(Object::Boolean(true)),
            }
        },
        ComparisonExpr::LessThan(b) => {
            let lv = match eval_sp_expr(funs, st, &b.left, fuel) {
                Ok(v) => v,
                Err(e2) => {
                    return Err(e2);
                },
            };
            let rv = match eval_sp_expr(funs, st, &b.right, fuel) {
                Ok(v) => v,
                Err(e2) => {
                    return Err(e2);
                },
            };
            match obj_lt(&lv, &rv) {
                Some(lt) => Ok(Object::Boolean(lt)),
                None => Err(RtErr::BrokenInvariant),
            }
        },
        ComparisonExpr::MoreThan(b) => {
            let lv = match eval_sp_expr(funs, st, &b.left, fuel) {
                Ok(v) => v,
                Err(e2) => {
                    return Err(e2);
                },
            };
            let rv = match eval_sp_expr(funs, st, &b.right, fuel) {
                Ok(v) => v,
                Err(e2) => {
                    return Err(e2);
                },
            };
            match obj_lt(&rv, &lv) {
                Some(gt) => Ok(Object::Boolean(gt)),
                None => Err(RtErr::BrokenInvariant),
            }
        },
    }
}

pub fn eval_short(funs: &Vec<Fun>, st: &mut State, s: &ShortExpr, fuel: u64) -> (r: Result<
    Object,
    RtErr,
>)
    ensures
        ({
            let (c, rr) = spec_eval_short(
                mk_state(funs_view(funs@), *old(st)),
                short_view(*s),
                fuel as nat,
            );
            mk_state(funs_view(funs@), *final(st)) == c && rres_view(r) == rr
        }),
    decreases fuel, 1int, *s, 0int, 0int,
{
    match s {
        ShortExpr::Ident(name) => match st.get(&name.0) {
            Some(o) => Ok(o),
            None => Err(RtErr::BrokenInvariant),
        },
        ShortExpr::GetByIndex(g) => eval_gbi(funs, st, g, fuel),
        ShortExpr::Literal(l) => Ok(
            match l {
                Literal::Int(v) => Object::Int(*v),
                Literal::Bool(b) => Object::Boolean(*b),
                Literal::Char(c) => Object::Char(*c),
                Literal::String(sv) => Object::String(bytes_clone(sv)),
            },
        ),
    }
}

/// An indexed read.
pub fn eval_gbi(funs: &Vec<Fun>, st: &mut State, g: &GetByIndex, fuel: u64) -> (r: Result<
    Object,
    RtErr,
>)
    ensures
        ({
            let (c, rr) = spec_eval_gbi(
                mk_state(funs_view(funs@), *old(st)),
                gbi_view(*g),
                fuel as nat,
            );
            mk_state(funs_view(funs@), *final(st)) == c && rres_view(r) == rr
        }),
    decreases fuel, 1int, *g, 0int, 0int,
{
    let ix = match eval_sp_expr(funs, st, &g.index, fuel) {
        Ok(Object::Int(ix)) => ix,
        Ok(_) => {
            return Err(RtErr::BrokenInvariant);
        },
        Err(e) => {
            return Err(e);
        },
    };
    if ix < 0 {
        return Err(RtErr::IndexOutOfRange);
    }
    match st.get(&g.ident.expr.0) {
        None => Err(RtErr::BrokenInvariant),
        Some(Object::Array(h)) => {
            if h < st.arrays.len() {
                proof {
                    assert(arrays_view(st.arrays@)[h as int] == row_view(st.arrays@[h as int]@));
                }
                let row = &st.arrays[h];
                if (ix as usize) < row.len() {
                    proof {
                        assert(row_view(st.arrays@[h as int]@)[ix as int] == obj_view(
                            st.arrays@[h as int]@[ix as int],
                        ));
                    }
                    Ok(obj_clone(&row[ix as usize]))
                } else {
                    Err(RtErr::IndexOutOfRange)
                }
            } else {
                Err(RtErr::BrokenInvariant)
            }
        },
        Some(Object::String(sv)) => {
            if (ix as usize) < sv.len() {
                Ok(Object::Char(sv[ix as usize]))
            } else {
                Err(RtErr::IndexOutOfRange)
            }
        },
        Some(_) => Err(RtErr::BrokenInvariant),
    }
}

pub fn eval_top(funs: &Vec<Fun>, st: &mut State, t: &TopExpr, fuel: u64) -> (r: Result<
    Object,
    RtErr,
>)
    ensures
        ({
            let (c, rr) = spec_eval_top(
                mk_state(funs_view(funs@), *old(st)),
                top_view(*t),
                fuel as nat,
            );
            mk_state(funs_view(funs@), *final(st)) == c && rres_view(r) == rr
        }),
    decreases fuel, 1int, *t, 0int, 0int,
{
    match t {
        TopExpr::ControlExpr(c) => eval_control(funs, st, c, fuel),
        TopExpr::Binding(b) => eval_binding(funs, st, b, fuel),
        TopExpr::Assign(a) => eval_assign(funs, st, a, fuel),
        TopExpr::Call(c) => eval_call(funs, st, c, fuel),
        TopExpr::SetByIndex(sb) => eval_sbi(funs, st, sb, fuel),
    }
}

pub fn eval_binding(funs: &Vec<Fun>, st: &mut State, b: &Binding, fuel: u64) -> (r: Result<
    Object,
    RtErr,
>)
    ensures
        ({
            let (c, rr) = spec_eval_binding(
                mk_state(funs_view(funs@), *old(st)),
                crate::ast::BindingS { is_mut: b.is_mut, set: assign_view(b.set) },
                fuel as nat,
            );
            mk_state(funs_view(funs@), *final(st)) == c && rres_view(r) == rr
        }),
    decreases fuel, 1int, *b, 0int, 0int,
{
    let v = match eval_sp_expr(funs, st, &b.set.expr, fuel) {
        Ok(v) => v,
        Err(e) => {
            return Err(e);
        },
    };
    st.var(Ident(bytes_clone(&b.set.name.expr.0)), v);
    Ok(Object::Unit)
}

pub fn eval_assign(funs: &Vec<Fun>, st: &mut State, a: &Assign, fuel: u64) -> (r: Result<
    Object,
    RtErr,
>)
    ensures
        ({
            let (c, rr) = spec_eval_assign(
                mk_state(funs_view(funs@), *old(st)),
                assign_view(*a),
                fuel as nat,
            );
            mk_state(funs_view(funs@), *final(st)) == c && rres_view(r) == rr
        }),
    decreases fuel, 1int, *a, 0int, 0int,
{
    let v = match eval_sp_expr(funs, st, &a.expr, fuel) {
        Ok(v) => v,
        Err(e) => {
            return Err(e);
        },
    };
    let found = set_in_scopes(&mut st.scopes, &a.name.expr.0, v);
    if found {
        Ok(Object::Unit)
    } else {
        Err(RtErr::BrokenInvariant)
    }
}

/// An indexed store: the value first, then the index; the write goes
/// through the shared handle; the variable is then overwritten with the
/// same handle.
pub fn eval_sbi(funs: &Vec<Fun>, st: &mut State, sb: &SetByIndex, fuel: u64) -> (r: Result<
    Object,
    RtErr,
>)
    ensures
        ({
            let (c, rr) = spec_eval_sbi(
                mk_state(funs_view(funs@), *old(st)),
                crate::ast::SetByIndexS {
                    get_by_index: gbi_view(sb.get_by_index),
                    expr: Box::new(sp_expr_view(*sb.expr)),
                },
                fuel as nat,
            );
            mk_state(funs_view(funs@), *final(st)) == c && rres_view(r) == rr
        }),
    decreases fuel, 1int, *sb, 0int, 0int,
{
    let value = match eval_sp_expr(funs, st, &sb.expr, fuel) {
        Ok(v) => v,
        Err(e) => {
            return Err(e);
        },
    };
    let ix = match eval_sp_expr(funs, st, &sb.get_by_index.index, fuel) {
        Ok(Object::Int(ix)) => ix,
        Ok(_) => {
            return Err(RtErr::BrokenInvariant);
        },
        Err(e) => {
            return Err(e);
        },
    };
    if ix < 0 {
        return Err(RtErr::IndexOutOfRange);
    }
    match st.get(&sb.get_by_index.ident.expr.0) {
        Some(Object::Array(h)) => {
            if h >= st.arrays.len() {
                return Err(RtErr::BrokenInvariant);
            }
            proof {
                assert(arrays_view(st.arrays@)[h as int] == row_view(st.arrays@[h as int]@));
            }
            if (ix as usize) >= st.arrays[h].len() {
                return Err(RtErr::IndexOutOfRange);
            }
            let ghost pre_arrays = arrays_view(st.arrays@);
            let mut row = st.arrays.swap_remove(h);
            let last = st.arrays.len();
            // swap_remove moved the final row into place h; restore the
            // arena by putting the updated row back and swapping again
            let ghost row_pre = row_view(row@);
            row.set(ix as usize, value);
            proof {
                assert(row_view(row@) =~= row_pre.update(ix as int, obj_view(value)));
            }
            st.arrays.push(row);
            if h < last {
                let moved = st.arrays.swap_remove(h);
                st.arrays.push(moved);
            }
            proof {
                assert(arrays_view(st.arrays@) =~= pre_arrays.update(
                    h as int,
                    pre_arrays[h as int].update(ix as int, obj_view(value)),
                ));
            }
            let found = set_in_scopes(&mut st.scopes, &sb.get_by_index.ident.expr.0, Object::Array(h));
            if found {
                Ok(Object::Unit)
            } else {
                Err(RtErr::BrokenInvariant)
            }
        },
        _ => Err(RtErr::BrokenInvariant),
    }
}

pub fn eval_call(funs: &Vec<Fun>, st: &mut State, c: &Call, fuel: u64) -> (r: Result<
    Object,
    RtErr,
>)
    ensures
        ({
            let (cs, rr) = spec_eval_call(
                mk_state(funs_view(funs@), *old(st)),
                call_view(*c),
                fuel as nat,
            );
            mk_state(funs_view(funs@), *final(st)) == cs && rres_view(r) == rr
        }),
    decreases fuel, 1int, *c, 0int, 0int,
{
    proof {
        assert(args_view(c.args@).skip(0) =~= args_view(c.args@));
    }
    let vals = match eval_args_from(funs, st, &c.args, 0, fuel) {
        Ok(vs) => vs,
        Err(e) => {
            return Err(e);
        },
    };
    call_function(funs, st, &c.name.expr.0, vals, fuel)
}

pub fn eval_control(funs: &Vec<Fun>, st: &mut State, c: &ControlExpr, fuel: u64) -> (r: Result<
    Object,
    RtErr,
>)
    ensures
        ({
            let (cs, rr) = spec_eval_control(
                mk_state(funs_view(funs@), *old(st)),
                control_view(*c),
                fuel as nat,
            );
            mk_state(funs_view(funs@), *final(st)) == cs && rres_view(r) == rr
        }),
    decreases fuel, 1int, *c, 0int, 0int,
{
    match c {
        ControlExpr::If(e) => eval_if(funs, st, e, fuel),
        ControlExpr::For(e) => eval_for(funs, st, e, fuel),
        ControlExpr::While(e) => eval_while(funs, st, e, fuel),
        ControlExpr::Return(e) => eval_return(funs, st, e, fuel),
    }
}

pub fn eval_return(funs: &Vec<Fun>, st: &mut State, e: &Return, fuel: u64) -> (r: Result<
    Object,
    RtErr,
>)
    ensures
        ({
            let (c, rr) = spec_eval_return(
                mk_state(funs_view(funs@), *old(st)),
                crate::ast::ReturnS(
                    match e.0 {
                        Some(b) => Some(boxed_view(b)),
                        None => None,
                    },
                ),
                fuel as nat,
            );
            mk_state(funs_view(funs@), *final(st)) == c && rres_view(r) == rr
        }),
    decreases fuel, 1int, *e, 0int, 0int,
{
    match &e.0 {
        Some(inner) => {
            let v = match eval_sp_expr(funs, st, inner, fuel) {
                Ok(v) => v,
                Err(e2) => {
                    return Err(e2);
                },
            };
            st.ret_item = Some(v);
            Ok(Object::Unit)
        },
        None => {
            st.ret_item = Some(Object::Unit);
            Ok(Object::Unit)
        },
    }
}

pub fn eval_if(funs: &Vec<Fun>, st: &mut State, e: &If, fuel: u64) -> (r: Result<Object, RtErr>)
    ensures
        ({
            let (c, rr) = spec_eval_if(
                mk_state(funs_view(funs@), *old(st)),
                crate::ast::IfS {
                    expr: Box::new(sp_expr_view(*e.expr)),
                    body: body_view(e.body@),
                    else_branch: body_view(e.else_branch@),
                },
                fuel as nat,
            );
            mk_state(funs_view(funs@), *final(st)) == c && rres_view(r) == rr
        }),
    decreases fuel, 1int, *e, 0int, 0int,
{
    let b = match eval_sp_expr(funs, st, &e.expr, fuel) {
        Ok(Object::Boolean(b)) => b,
        Ok(_) => {
            return Err(RtErr::BrokenInvariant);
        },
        Err(e2) => {
            return Err(e2);
        },
    };
    st.push();
    proof {
        assert(body_view(e.body@).skip(0) =~= body_view(e.body@));
        assert(body_view(e.else_branch@).skip(0) =~= body_view(e.else_branch@));
    }
    let br = if b {
        eval_body_from(funs, st, &e.body, 0, fuel)
    } else {
        eval_body_from(funs, st, &e.else_branch, 0, fuel)
    };
    match br {
        Err(e2) => Err(e2),
        Ok(_) => {
            st.pop();
            Ok(Object::Unit)
        },
    }
}

pub fn eval_while(funs: &Vec<Fun>, st: &mut State, e: &While, fuel: u64) -> (r: Result<
    Object,
    RtErr,
>)
    ensures
        ({
            let (c, rr) = spec_eval_while(
                mk_state(funs_view(funs@), *old(st)),
                crate::ast::WhileS { expr: Box::new(sp_expr_view(*e.expr)), body: body_view(
                    e.body@,
                ) },
                fuel as nat,
            );
            mk_state(funs_view(funs@), *final(st)) == c && rres_view(r) == rr
        }),
    decreases fuel, 1int, *e, 0int, 0int,
{
    let b = match eval_sp_expr(funs, st, &e.expr, fuel) {
        Ok(Object::Boolean(b)) => b,
        Ok(_) => {
            return Err(RtErr::BrokenInvariant);
        },
        Err(e2) => {
            return Err(e2);
        },
    };
    if !b {
        return Ok(Object::Unit);
    }
    st.push();
    proof {
        assert(body_view(e.body@).skip(0) =~= body_view(e.body@));
    }
    let br = eval_body_from(funs, st, &e.body, 0, fuel);
    match br {
        Err(e2) => Err(e2),
        Ok(_) => {
            st.pop();
            let stop = match &st.ret_item {
                Some(_) => true,
                None => false,
            };
            if stop {
                Ok(Object::Unit)
            } else if fuel == 0 {
                Err(RtErr::OutOfFuel)
            } else {
                eval_while(funs, st, e, fuel - 1)
            }
        },
    }
}

/// The iterations of a `for` loop over a fixed element sequence.
fn eval_for_items(
    funs: &Vec<Fun>,
    st: &mut State,
    e: &For,
    items: &Vec<Object>,
    k: usize,
    fuel: u64,
) -> (r: Result<Object, RtErr>)
    requires
        k <= items@.len(),
    ensures
        ({
            let (c, rr) = spec_eval_for_items(
                mk_state(funs_view(funs@), *old(st)),
                crate::ast::ForS {
                    var: e.var.0@,
                    iterable: Box::new(sp_expr_view(*e.iterable)),
                    body: body_view(e.body@),
                },
                row_view(items@).skip(k as int),
                fuel as nat,
            );
            mk_state(funs_view(funs@), *final(st)) == c && rres_view(r) == rr
        }),
    decreases fuel, 1int, e.body, items@.len() - k, 0int,
{
    if k >= items.len() {
        proof {
            assert(row_view(items@).skip(k as int) =~= Seq::<ObjV>::empty());
        }
        return Ok(Object::Unit);
    }
    proof {
        assert(row_view(items@).skip(k as int).first() == row_view(items@)[k as int]);
        assert(row_view(items@).skip(k as int).drop_first() =~= row_view(items@).skip(k + 1));
    }
    st.var(Ident(bytes_clone(&e.var.0)), obj_clone(&items[k]));
    proof {
        assert(body_view(e.body@).skip(0) =~= body_view(e.body@));
    }
    let br = eval_body_from(funs, st, &e.body, 0, fuel);
    match br {
        Err(e2) => Err(e2),
        Ok(_) => {
            let stop = match &st.ret_item {
                Some(_) => true,
                None => false,
            };
            if stop {
                Ok(Object::Unit)
            } else {
                eval_for_items(funs, st, e, items, k + 1, fuel)
            }
        },
    }
}

/// A value and its model agree on their kind.
proof fn lemma_obj_view_kind(o: Object)
    ensures
        (obj_view(o) is Int) <==> (o is Int),
        (obj_view(o) is Str) <==> (o is String),
        (obj_view(o) is Bool) <==> (o is Boolean),
        (obj_view(o) is Char) <==> (o is Char),
        (obj_view(o) is Arr) <==> (o is Array),
        (obj_view(o) is Range) <==> (o is Range),
        (obj_view(o) is Unit) <==> (o is Unit),
{
    match o {
        Object::Unit => {},
        Object::Int(_) => {},
        Object::String(_) => {},
        Object::Boolean(_) => {},
        Object::Char(_) => {},
        Object::Array(_) => {},
        Object::Range(_, _) => {},
    }
}

/// The elements an iterable value yields, as a fresh snapshot.
fn iter_items(st: &State, v: &Object) -> (r: Option<Vec<Object>>)
    ensures
        match r {
            Some(items) => spec_iter_items(
                mk_state(Seq::empty(), *st),
                obj_view(*v),
            ) == Some(row_view(items@)),
            None => spec_iter_items(mk_state(Seq::empty(), *st), obj_view(*v)) is None,
        },
{
    match v {
        Object::String(s) => {
            let mut items: Vec<Object> = Vec::new();
            let mut k: usize = 0;
            while k < s.len()
                invariant
                    k <= s@.len(),
                    items@.len() == k,
                    forall|j: int|
                        0 <= j < k ==> obj_view(#[trigger] items@[j]) == ObjV::Char(s@[j]),
                decreases s@.len() - k,
            {
                items.push(Object::Char(s[k]));
                k += 1;
            }
            proof {
                let target = Seq::new(s@.len(), |j: int| ObjV::Char(s@[j]));
                assert(forall|j: int|
                    0 <= j < s@.len() ==> row_view(items@)[j] == ObjV::Char(s@[j]));
                assert(forall|j: int| 0 <= j < s@.len() ==> #[trigger] target[j] == ObjV::Char(
                    s@[j],
                ));
                assert(row_view(items@) =~= target);
                assert(spec_iter_items(mk_state(Seq::empty(), *st), obj_view(*v)) == Some(target));
            }
            Some(items)
        },
        Object::Array(h) => {
            if *h < st.arrays.len() {
                proof {
                    assert(arrays_view(st.arrays@)[*h as int] == row_view(st.arrays@[*h as int]@));
                }
                let row = &st.arrays[*h];
                let mut items: Vec<Object> = Vec::new();
                let mut k: usize = 0;
                while k < row.len()
                    invariant
                        k <= row@.len(),
                        items@.len() == k,
                        forall|j: int|
                            0 <= j < k ==> obj_view(#[trigger] items@[j]) == obj_view(row@[j]),
                    decreases row@.len() - k,
                {
                    items.push(obj_clone(&row[k]));
                    k += 1;
                }
                proof {
                    assert(row_view(items@) =~= row_view(row@));
                }
                Some(items)
            } else {
                proof {
                    assert(spec_iter_items(mk_state(Seq::empty(), *st), obj_view(*v)) is None);
                }
                None
            }
        },
        Object::Range(l, rr) => {
            match (&**l, &**rr) {
                (Object::Int(a), Object::Int(b)) => {
                    let mut items: Vec<Object> = Vec::new();
                    let a = *a;
                    let b = *b;
                    let mut cur: i64 = a as i64;
                    while cur <= b as i64
                        invariant
                            a as int <= cur <= b as int + 1 || (cur == a as int && a as int > b
                                as int),
                            row_view(items@) == spec_range_items(a as int, cur - 1),
                        decreases b as int + 1 - cur,
                    {
                        proof {
                            lemma_range_items_snoc(a as int, cur as int);
                        }
                        items.push(Object::Int(cur as i32));
                        proof {
                            assert(row_view(items@) =~= spec_range_items(a as int, cur as int));
                        }
                        cur = cur + 1;
                    }
                    Some(items)
                },
                _ => {
                    proof {
                        lemma_obj_view_kind(**l);
                        lemma_obj_view_kind(**rr);
                        assert(spec_iter_items(mk_state(Seq::empty(), *st), obj_view(*v))
                            is None);
                    }
                    None
                },
            }
        },
        _ => {
            proof {
                lemma_obj_view_kind(*v);
                assert(spec_iter_items(mk_state(Seq::empty(), *st), obj_view(*v)) is None);
            }
            None
        },
    }
}

/// An inclusive range grows at its top end one element at a time.
proof fn lemma_range_items_snoc(lo: int, hi: int)
    requires
        lo <= hi,
    ensures
        spec_range_items(lo, hi) == spec_range_items(lo, hi - 1).push(ObjV::Int(hi as i32)),
    decreases hi - lo,
{
    if lo == hi {
        assert(spec_range_items(lo, hi - 1) =~= Seq::<ObjV>::empty());
        assert(spec_range_items(lo + 1, hi) =~= Seq::<ObjV>::empty());
        assert(spec_range_items(lo, hi) =~= spec_range_items(lo, hi - 1).push(
            ObjV::Int(hi as i32),
        ));
    } else {
        lemma_range_items_snoc(lo + 1, hi);
        assert(spec_range_items(lo, hi) == seq![ObjV::Int(lo as i32)] + spec_range_items(
            lo + 1,
            hi,
        ));
        assert(spec_range_items(lo, hi - 1) == seq![ObjV::Int(lo as i32)] + spec_range_items(
            lo + 1,
            hi - 1,
        ));
        assert(seq![ObjV::Int(lo as i32)] + spec_range_items(lo + 1, hi - 1).push(
            ObjV::Int(hi as i32),
        ) =~= (seq![ObjV::Int(lo as i32)] + spec_range_items(lo + 1, hi - 1)).push(
            ObjV::Int(hi as i32),
        ));
        assert(spec_range_items(lo, hi) =~= spec_range_items(lo, hi - 1).push(
            ObjV::Int(hi as i32),
        ));
    }
}

/// `for`: the iterable's elements are fixed at loop entry; one scope
/// serves the whole loop.
pub fn eval_for(funs: &Vec<Fun>, st: &mut State, e: &For, fuel: u64) -> (r: Result<Object, RtErr>)
    ensures
        ({
            let (c, rr) = spec_eval_for(
                mk_state(funs_view(funs@), *old(st)),
                crate::ast::ForS {
                    var: e.var.0@,
                    iterable: Box::new(sp_expr_view(*e.iterable)),
                    body: body_view(e.body@),
                },
                fuel as nat,
            );
            mk_state(funs_view(funs@), *final(st)) == c && rres_view(r) == rr
        }),
    decreases fuel, 1int, *e, 0int, 0int,
{
    let v = match eval_sp_expr(funs, st, &e.iterable, fuel) {
        Ok(v) => v,
        Err(e2) => {
            return Err(e2);
        },
    };
    let items = match iter_items(st, &v) {
        Some(items) => items,
        None => {
            return Err(RtErr::BrokenInvariant);
        },
    };
    st.push();
    proof {
        assert(row_view(items@).skip(0) =~= row_view(items@));
    }
    let br = eval_for_items(funs, st, e, &items, 0, fuel);
    match br {
        Err(e2) => Err(e2),
        Ok(_) => {
            st.pop();
            Ok(Object::Unit)
        },
    }
}

impl Context {
    /// A fresh evaluator over a parsed program with the given input
    /// lines.
    pub fn new(prog: Program, input: Vec<Vec<u8>>) -> (r: Context)
        ensures
            funs_view(r.functions@) == program_view(prog).functions,
            mk_state(funs_view(r.functions@), r.state) == spec_initial_state(
                program_view(prog).functions,
                input_view(input@),
            ),
    {
        let r = Context {
            functions: prog.functions,
            state: State {
                scopes: Vec::new(),
                arrays: Vec::new(),
                ret_item: None,
                input: input,
                in_pos: 0,
                output: Vec::new(),
            },
        };
        proof {
            assert(rscopes_view(r.state.scopes@) =~= Seq::<crate::interpreter::model::RFrameS>::empty());
            assert(arrays_view(r.state.arrays@) =~= Seq::<Seq<ObjV>>::empty());
        }
        r
    }

    /// Runs the program: `main` called with no arguments. The result is
    /// `main`'s value, or what stopped the run.
    pub fn run(&mut self, fuel: u64) -> (r: Result<Object, RtErr>)
        ensures
            ({
                let (c, rr) = spec_run(
                    mk_state(funs_view(old(self).functions@), old(self).state),
                    fuel as nat,
                );
                mk_state(funs_view(final(self).functions@), final(self).state) == c
                    && final(self).functions == old(self).functions && rres_view(r) == rr
            }),
    {
        let main_name: Vec<u8> = vec![109, 97, 105, 110];
        proof {
            assert(main_name@ =~= crate::analyzer::model::bytes_main());
            assert(row_view(Seq::<Object>::empty()) =~= Seq::<ObjV>::empty());
        }
        call_function(&self.functions, &mut self.state, &main_name, Vec::new(), fuel)
    }
}

} // verus!
