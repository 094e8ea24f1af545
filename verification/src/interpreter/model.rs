//! The evaluator, as a fuelled big-step semantics.
//!
//! `StateS` carries the function table, the scope stack, the arena of
//! array storage (an `Arr` value is a handle into it, so aliases share
//! one backing), the pending-return slot, the input lines with a cursor,
//! and the output transcript. Each `spec_eval_*` function returns the
//! new state with the construct's value or the error that stopped the
//! run. User-function calls and `while` iterations consume one unit of
//! fuel; an exhausted run ends in `OutOfFuel` rather than diverging.

use vstd::prelude::*;

use crate::ast::{AssignS, BinS, BindingS, CallS, ComparisonExprS, ControlExprS, ExprS, ForS, FunS,
    GetByIndexS, IfS, LiteralS, MathExprS, ReturnS, SetByIndexS, ShortExprS, Spanned, TopExprS,
    WhileS};
use crate::analyzer::model::{bytes_array_of, bytes_main, bytes_print, bytes_println,
    bytes_readln, bytes_readln_boolean, bytes_readln_int};
use crate::lexer::token::{spec_digits_val, spec_digits_valid};

verus! {

/// A runtime value. `Arr` is a reference-semantics handle into the
/// state's array arena; all other variants carry their data.
pub enum ObjV {
    Unit,
    Int(i32),
    Str(Seq<u8>),
    Bool(bool),
    Char(u8),
    Arr(int),
    Range(Box<ObjV>, Box<ObjV>),
}

/// What stops a run. The first five are the user-facing fatal
/// conditions; `BrokenInvariant` marks an internal impossibility that
/// the checker rules out for accepted programs (a name that does not
/// resolve, an operand of the wrong kind); `OutOfFuel` means the given
/// fuel ran out before the program finished.
#[derive(Debug, Clone, Copy, PartialEq, Eq, Structural)]
pub enum RtErr {
    IndexOutOfRange,
    DivisionByZero,
    FailedToReadInput,
    FailedToParseInt,
    FailedToParseBoolean,
    BrokenInvariant,
    OutOfFuel,
}

/// One scope frame of the evaluator.
pub type RFrameS = Seq<(Seq<u8>, ObjV)>;

/// The whole runtime state.
pub struct StateS {
    pub funs: Seq<FunS>,
    pub scopes: Seq<RFrameS>,
    pub arrays: Seq<Seq<ObjV>>,
    pub ret: Option<ObjV>,
    pub input: Seq<Seq<u8>>,
    pub in_pos: int,
    pub output: Seq<u8>,
}

/// The last matching binding of one frame.
pub open spec fn spec_rframe_lookup(frame: RFrameS, name: Seq<u8>) -> Option<ObjV>
    decreases frame.len(),
{
    if frame.len() == 0 {
        None
    } else if frame.last().0 == name {
        Some(frame.last().1)
    } else {
        spec_rframe_lookup(frame.drop_last(), name)
    }
}

/// Scope lookup, innermost frame first.
pub open spec fn spec_get(scopes: Seq<RFrameS>, name: Seq<u8>) -> Option<ObjV>
    decreases scopes.len(),
{
    if scopes.len() == 0 {
        None
    } else {
        match spec_rframe_lookup(scopes.last(), name) {
            Some(o) => Some(o),
            None => spec_get(scopes.drop_last(), name),
        }
    }
}

/// A binding written into the innermost frame (shadowing an outer one of
/// the same name); with no frame the stack is unchanged, which a run
/// never encounters.
pub open spec fn spec_var_in(scopes: Seq<RFrameS>, name: Seq<u8>, obj: ObjV) -> Seq<RFrameS> {
    if scopes.len() == 0 {
        scopes
    } else {
        scopes.update(scopes.len() - 1, scopes.last().push((name, obj)))
    }
}

/// The state after binding a name in the innermost frame.
pub open spec fn spec_var(st: StateS, name: Seq<u8>, obj: ObjV) -> StateS {
    StateS { scopes: spec_var_in(st.scopes, name, obj), ..st }
}

/// The existing binding overwritten in place: the innermost frame that
/// holds the name takes the new value. `None` when no frame holds it.
pub open spec fn spec_set_in(scopes: Seq<RFrameS>, name: Seq<u8>, obj: ObjV) -> Option<
    Seq<RFrameS>,
>
    decreases scopes.len(),
{
    if scopes.len() == 0 {
        None
    } else if spec_rframe_lookup(scopes.last(), name) is Some {
        Some(scopes.update(scopes.len() - 1, scopes.last().push((name, obj))))
    } else {
        match spec_set_in(scopes.drop_last(), name, obj) {
            Some(outer) => Some(outer.push(scopes.last())),
            None => None,
        }
    }
}

/// The function bound to a name; with a repeated name the latest
/// declaration wins, as the table is built by insertion.
pub open spec fn spec_fun_find(funs: Seq<FunS>, name: Seq<u8>) -> Option<FunS>
    decreases funs.len(),
{
    if funs.len() == 0 {
        None
    } else if funs.last().name == name {
        Some(funs.last())
    } else {
        spec_fun_find(funs.drop_last(), name)
    }
}

/// The decimal digits of a non-negative number.
pub open spec fn spec_dec_digits(m: int) -> Seq<u8>
    decreases m,
{
    if m < 10 {
        seq![(48 + (if m >= 0 { m } else { 0 })) as u8]
    } else {
        spec_dec_digits(m / 10) + seq![(48 + m % 10) as u8]
    }
}

/// The decimal text of a signed 32-bit value.
pub open spec fn spec_i32_text(n: i32) -> Seq<u8> {
    if n < 0 {
        seq![45u8] + spec_dec_digits(-(n as int))
    } else {
        spec_dec_digits(n as int)
    }
}

pub open spec fn bytes_true() -> Seq<u8> {
    seq![116u8, 114u8, 117u8, 101u8]
}

pub open spec fn bytes_false() -> Seq<u8> {
    seq![102u8, 97u8, 108u8, 115u8, 101u8]
}

/// What printing a value appends: only the four stringifiable kinds
/// have text.
pub open spec fn spec_obj_text(o: ObjV) -> Option<Seq<u8>> {
    match o {
        ObjV::Int(n) => Some(spec_i32_text(n)),
        ObjV::Str(s) => Some(s),
        ObjV::Bool(b) => Some(
            if b {
                bytes_true()
            } else {
                bytes_false()
            },
        ),
        ObjV::Char(c) => Some(seq![c]),
        _ => None,
    }
}

/// Negation that wraps at the edge of the 32-bit range.
pub open spec fn spec_wrapping_neg(a: i32) -> i32 {
    if a == i32::MIN {
        i32::MIN
    } else {
        (-a) as i32
    }
}

/// Division truncating toward zero, with the one wrapping case.
pub open spec fn spec_wrapping_div(a: i32, b: i32) -> i32
    recommends
        b != 0,
{
    if b == -1 {
        spec_wrapping_neg(a)
    } else {
        let am: int = if a >= 0 {
            a as int
        } else {
            -(a as int)
        };
        let bm: int = if b >= 0 {
            b as int
        } else {
            -(b as int)
        };
        let q = am / bm;
        if (a < 0) != (b < 0) {
            (-q) as i32
        } else {
            q as i32
        }
    }
}

/// Lexicographic order on byte strings: how the host orders its text.
pub open spec fn spec_bytes_lt(a: Seq<u8>, b: Seq<u8>) -> bool
    decreases a.len(),
{
    if a.len() == 0 {
        b.len() > 0
    } else if b.len() == 0 {
        false
    } else if a.first() < b.first() {
        true
    } else if a.first() > b.first() {
        false
    } else {
        spec_bytes_lt(a.drop_first(), b.drop_first())
    }
}

/// The comparison of two runtime values of one orderable kind:
/// `Some(true)` for strictly smaller, `Some(false)` for not; `None`
/// where no order exists.
pub open spec fn spec_obj_lt(l: ObjV, r: ObjV) -> Option<bool> {
    match (l, r) {
        (ObjV::Int(a), ObjV::Int(b)) => Some(a < b),
        (ObjV::Str(a), ObjV::Str(b)) => Some(spec_bytes_lt(a, b)),
        (ObjV::Bool(a), ObjV::Bool(b)) => Some(!a && b),
        (ObjV::Char(a), ObjV::Char(b)) => Some(a < b),
        _ => None,
    }
}

/// The signed value a whole line of input denotes, exactly as the
/// host's integer parsing accepts it: an optional sign, then decimal
/// digits, within the 32-bit range.
pub open spec fn spec_parse_i32(w: Seq<u8>) -> Option<i32> {
    let neg = w.len() > 0 && w[0] == 45;
    let d0: int = if w.len() > 0 && (w[0] == 43 || w[0] == 45) {
        1
    } else {
        0
    };
    let digits = w.skip(d0);
    if digits.len() == 0 || !spec_digits_valid(digits, 10) {
        None
    } else {
        let v = spec_digits_val(digits, 10);
        if !neg && v <= i32::MAX {
            Some(v as i32)
        } else if neg && v <= 0x8000_0000 {
            Some((-v) as i32)
        } else {
            None
        }
    }
}

/// The boolean a whole line denotes: exactly `true` or `false`.
pub open spec fn spec_parse_bool(w: Seq<u8>) -> Option<bool> {
    if w == bytes_true() {
        Some(true)
    } else if w == bytes_false() {
        Some(false)
    } else {
        None
    }
}

/// The elements an inclusive ascending integer range yields.
pub open spec fn spec_range_items(lo: int, hi: int) -> Seq<ObjV>
    decreases hi - lo + 1,
{
    if lo > hi {
        Seq::empty()
    } else {
        seq![ObjV::Int(lo as i32)] + spec_range_items(lo + 1, hi)
    }
}

/// The parameter frame of a call: names bound to values positionally.
pub open spec fn spec_bind_frame(params: Seq<(Seq<u8>, crate::ast::TypeS)>, args: Seq<ObjV>) -> RFrameS
    decreases params,
{
    if params.len() == 0 || args.len() == 0 {
        Seq::empty()
    } else {
        seq![(params.first().0, args.first())] + spec_bind_frame(
            params.drop_first(),
            args.drop_first(),
        )
    }
}

/// Printing one value after another, in order.
pub open spec fn spec_print_objs(st: StateS, args: Seq<ObjV>) -> (StateS, Result<ObjV, RtErr>)
    decreases args.len(),
{
    if args.len() == 0 {
        (st, Ok(ObjV::Unit))
    } else {
        match spec_obj_text(args.first()) {
            None => (st, Err(RtErr::BrokenInvariant)),
            Some(text) => spec_print_objs(
                StateS { output: st.output + text, ..st },
                args.drop_first(),
            ),
        }
    }
}

/// One line taken from the input, or the failure to read one.
pub open spec fn spec_read_line(st: StateS) -> (StateS, Result<Seq<u8>, RtErr>) {
    if st.in_pos < st.input.len() {
        (StateS { in_pos: st.in_pos + 1, ..st }, Ok(st.input[st.in_pos]))
    } else {
        (st, Err(RtErr::FailedToReadInput))
    }
}

/// A built-in call, or `None` when the name is no built-in. `print`
/// and `println` stringify every argument in order; `arrayOf` makes a
/// fresh shared array; the `readln` family consumes one input line.
pub open spec fn spec_call_predefined(st: StateS, name: Seq<u8>, args: Seq<ObjV>) -> Option<
    (StateS, Result<ObjV, RtErr>),
> {
    if name == bytes_print() {
        Some(spec_print_objs(st, args))
    } else if name == bytes_println() {
        let (s1, r) = spec_print_objs(st, args);
        match r {
            Ok(_) => Some((StateS { output: s1.output + seq![10u8], ..s1 }, Ok(ObjV::Unit))),
            Err(e) => Some((s1, Err(e))),
        }
    } else if name == bytes_array_of() {
        Some(
            (
                StateS { arrays: st.arrays.push(args), ..st },
                Ok(ObjV::Arr(st.arrays.len() as int)),
            ),
        )
    } else if name == bytes_readln() {
        let (s1, r) = spec_read_line(st);
        match r {
            Ok(line) => Some((s1, Ok(ObjV::Str(line)))),
            Err(e) => Some((s1, Err(e))),
        }
    } else if name == bytes_readln_int() {
        let (s1, r) = spec_read_line(st);
        match r {
            Ok(line) => match spec_parse_i32(line) {
                Some(v) => Some((s1, Ok(ObjV::Int(v)))),
                None => Some((s1, Err(RtErr::FailedToParseInt))),
            },
            Err(e) => Some((s1, Err(e))),
        }
    } else if name == bytes_readln_boolean() {
        let (s1, r) = spec_read_line(st);
        match r {
            Ok(line) => match spec_parse_bool(line) {
                Some(v) => Some((s1, Ok(ObjV::Bool(v)))),
                None => Some((s1, Err(RtErr::FailedToParseBoolean))),
            },
            Err(e) => Some((s1, Err(e))),
        }
    } else {
        None
    }
}

/// A call: built-ins dispatch directly; a user function gets a fresh
/// frame with its parameters bound positionally, runs its body with the
/// pending-return slot checked after every statement, and yields the
/// pending value, or `Unit` when none was set. Each user call burns one
/// unit of fuel.
pub open spec fn spec_call_function(st: StateS, name: Seq<u8>, args: Seq<ObjV>, fuel: nat) -> (
    StateS,
    Result<ObjV, RtErr>,
)
    decreases fuel, 0int, name, 0int,
{
    match spec_call_predefined(st, name, args) {
        Some(out) => out,
        None => match spec_fun_find(st.funs, name) {
            None => (st, Err(RtErr::BrokenInvariant)),
            Some(f) => if f.args.len() != args.len() {
                (st, Err(RtErr::BrokenInvariant))
            } else if fuel == 0 {
                (st, Err(RtErr::OutOfFuel))
            } else {
                let entered = StateS {
                    scopes: st.scopes.push(spec_bind_frame(f.args, args)),
                    ..st
                };
                let (s1, r) = spec_eval_body(entered, f.body, (fuel - 1) as nat);
                match r {
                    Err(e) => (s1, Err(e)),
                    Ok(_) => {
                        let popped = StateS {
                            scopes: if s1.scopes.len() > 0 {
                                s1.scopes.drop_last()
                            } else {
                                s1.scopes
                            },
                            ret: None,
                            ..s1
                        };
                        match s1.ret {
                            Some(o) => (popped, Ok(o)),
                            None => (popped, Ok(ObjV::Unit)),
                        }
                    },
                }
            },
        },
    }
}

/// A statement sequence: after every statement the pending-return slot
/// is checked and the walk stops at once when it is set.
pub open spec fn spec_eval_body(st: StateS, body: Seq<Spanned<TopExprS>>, fuel: nat) -> (
    StateS,
    Result<ObjV, RtErr>,
)
    decreases fuel, 1int, body, 0int,
{
    if body.len() == 0 {
        (st, Ok(ObjV::Unit))
    } else {
        let (s1, r) = spec_eval_sp_top(st, body.first(), fuel);
        match r {
            Err(e) => (s1, Err(e)),
            Ok(_) => if s1.ret is Some {
                (s1, Ok(ObjV::Unit))
            } else {
                spec_eval_body(s1, body.drop_first(), fuel)
            },
        }
    }
}

/// The arguments of a call, evaluated left to right.
pub open spec fn spec_eval_args(st: StateS, args: Seq<Spanned<ExprS>>, fuel: nat) -> (
    StateS,
    Result<Seq<ObjV>, RtErr>,
)
    decreases fuel, 1int, args, 0int,
{
    if args.len() == 0 {
        (st, Ok(Seq::empty()))
    } else {
        let (s1, r) = spec_eval_sp_expr(st, args.first(), fuel);
        match r {
            Err(e) => (s1, Err(e)),
            Ok(v) => match spec_eval_args(s1, args.drop_first(), fuel) {
                (s2, Ok(rest)) => (s2, Ok(seq![v] + rest)),
                (s2, Err(e)) => (s2, Err(e)),
            },
        }
    }
}

pub open spec fn spec_eval_sp_expr(st: StateS, se: Spanned<ExprS>, fuel: nat) -> (
    StateS,
    Result<ObjV, RtErr>,
)
    decreases fuel, 1int, se, 1int,
{
    spec_eval_expr(st, se.expr, fuel)
}

pub open spec fn spec_eval_sp_top(st: StateS, stp: Spanned<TopExprS>, fuel: nat) -> (
    StateS,
    Result<ObjV, RtErr>,
)
    decreases fuel, 1int, stp, 1int,
{
    spec_eval_top(st, stp.expr, fuel)
}

pub open spec fn spec_eval_expr(st: StateS, e: ExprS, fuel: nat) -> (StateS, Result<ObjV, RtErr>)
    decreases fuel, 1int, e, 0int,
{
    match e {
        ExprS::TopExpr(t) => spec_eval_top(st, t, fuel),
        ExprS::MathExpr(m) => spec_eval_math(st, m, fuel),
        ExprS::ComparisonExpr(c) => spec_eval_cmp(st, c, fuel),
        ExprS::ShortExpr(s) => spec_eval_short(st, s, fuel),
    }
}

/// Integer arithmetic wraps; division by zero is fatal; `+` with a
/// string on either side stringifies the other side and concatenates in
/// operand order.
pub open spec fn spec_eval_math(st: StateS, m: MathExprS, fuel: nat) -> (
    StateS,
    Result<ObjV, RtErr>,
)
    decreases fuel, 1int, m, 2int,
{
    match m {
        MathExprS::Neg(e) => {
            let (s1, r) = spec_eval_sp_expr(st, *e, fuel);
            match r {
                Ok(ObjV::Int(n)) => (s1, Ok(ObjV::Int(spec_wrapping_neg(n)))),
                Ok(_) => (s1, Err(RtErr::BrokenInvariant)),
                Err(e2) => (s1, Err(e2)),
            }
        },
        MathExprS::BoolNeg(e) => {
            let (s1, r) = spec_eval_sp_expr(st, *e, fuel);
            match r {
                Ok(ObjV::Bool(b)) => (s1, Ok(ObjV::Bool(!b))),
                Ok(_) => (s1, Err(RtErr::BrokenInvariant)),
                Err(e2) => (s1, Err(e2)),
            }
        },
        MathExprS::Parens(e) => spec_eval_sp_expr(st, *e, fuel),
        MathExprS::Range(b) => {
            let (s1, l) = spec_eval_sp_expr(st, *b.left, fuel);
            match l {
                Err(e2) => (s1, Err(e2)),
                Ok(lv) => {
                    let (s2, r) = spec_eval_sp_expr(s1, *b.right, fuel);
                    match r {
                        Err(e2) => (s2, Err(e2)),
                        Ok(rv) => (s2, Ok(ObjV::Range(Box::new(lv), Box::new(rv)))),
                    }
                },
            }
        },
        MathExprS::Sub(b) => {
            let (s2, vs) = spec_eval_bin(st, b, fuel);
            match vs {
                Err(e2) => (s2, Err(e2)),
                Ok((ObjV::Int(x), ObjV::Int(y))) => (s2, Ok(ObjV::Int(x.wrapping_sub(y)))),
                Ok(_) => (s2, Err(RtErr::BrokenInvariant)),
            }
        },
        MathExprS::Mul(b) => {
            let (s2, vs) = spec_eval_bin(st, b, fuel);
            match vs {
                Err(e2) => (s2, Err(e2)),
                Ok((ObjV::Int(x), ObjV::Int(y))) => (s2, Ok(ObjV::Int(x.wrapping_mul(y)))),
                Ok(_) => (s2, Err(RtErr::BrokenInvariant)),
            }
        },
        MathExprS::Div(b) => {
            let (s2, vs) = spec_eval_bin(st, b, fuel);
            match vs {
                Err(e2) => (s2, Err(e2)),
                Ok((ObjV::Int(x), ObjV::Int(y))) => if y == 0 {
                    (s2, Err(RtErr::DivisionByZero))
                } else {
                    (s2, Ok(ObjV::Int(spec_wrapping_div(x, y))))
                },
                Ok(_) => (s2, Err(RtErr::BrokenInvariant)),
            }
        },
        MathExprS::Add(b) => {
            let (s2, vs) = spec_eval_bin(st, b, fuel);
            match vs {
                Err(e2) => (s2, Err(e2)),
                Ok((ObjV::Int(x), ObjV::Int(y))) => (s2, Ok(ObjV::Int(x.wrapping_add(y)))),
                Ok((ObjV::Str(x), other)) => match spec_obj_text(other) {
                    Some(t) => (s2, Ok(ObjV::Str(x + t))),
                    None => (s2, Err(RtErr::BrokenInvariant)),
                },
                Ok((other, ObjV::Str(y))) => match spec_obj_text(other) {
                    Some(t) => (s2, Ok(ObjV::Str(t + y))),
                    None => (s2, Err(RtErr::BrokenInvariant)),
                },
                Ok(_) => (s2, Err(RtErr::BrokenInvariant)),
            }
        },
    }
}

/// Both operands of a strict binary node, left first.
pub open spec fn spec_eval_bin(st: StateS, b: BinS, fuel: nat) -> (
    StateS,
    Result<(ObjV, ObjV), RtErr>,
)
    decreases fuel, 1int, b, 1int,
{
    let (s1, l) = spec_eval_sp_expr(st, *b.left, fuel);
    match l {
        Err(e) => (s1, Err(e)),
        Ok(lv) => {
            let (s2, r) = spec_eval_sp_expr(s1, *b.right, fuel);
            match r {
                Err(e) => (s2, Err(e)),
                Ok(rv) => (s2, Ok((lv, rv))),
            }
        },
    }
}

/// `&&` and `||` short-circuit: the right side runs only when the left
/// side leaves the outcome open, and its raw value is the result. `<`
/// and `>` compare two values of one orderable kind.
pub open spec fn spec_eval_cmp(st: StateS, c: ComparisonExprS, fuel: nat) -> (
    StateS,
    Result<ObjV, RtErr>,
)
    decreases fuel, 1int, c, 2int,
{
    match c {
        ComparisonExprS::And(b) => {
            let (s1, l) = spec_eval_sp_expr(st, *b.left, fuel);
            match l {
                Err(e) => (s1, Err(e)),
                Ok(ObjV::Bool(true)) => spec_eval_sp_expr(s1, *b.right, fuel),
                Ok(_) => (s1, Ok(ObjV::Bool(false))),
            }
        },
        ComparisonExprS::Or(b) => {
            let (s1, l) = spec_eval_sp_expr(st, *b.left, fuel);
            match l {
                Err(e) => (s1, Err(e)),
                Ok(ObjV::Bool(false)) => spec_eval_sp_expr(s1, *b.right, fuel),
                Ok(_) => (s1, Ok(ObjV::Bool(true))),
            }
        },
        ComparisonExprS::LessThan(b) => {
            let (s2, vs) = spec_eval_bin(st, b, fuel);
            match vs {
                Err(e) => (s2, Err(e)),
                Ok((l, r)) => match spec_obj_lt(l, r) {
                    Some(lt) => (s2, Ok(ObjV::Bool(lt))),
                    None => (s2, Err(RtErr::BrokenInvariant)),
                },
            }
        },
        ComparisonExprS::MoreThan(b) => {
            let (s2, vs) = spec_eval_bin(st, b, fuel);
            match vs {
                Err(e) => (s2, Err(e)),
                Ok((l, r)) => match spec_obj_lt(r, l) {
                    Some(gt) => (s2, Ok(ObjV::Bool(gt))),
                    None => (s2, Err(RtErr::BrokenInvariant)),
                },
            }
        },
    }
}

/// A name resolves through the scopes; a literal is its value; an
/// indexed read goes through the base.
pub open spec fn spec_eval_short(st: StateS, s: ShortExprS, fuel: nat) -> (
    StateS,
    Result<ObjV, RtErr>,
)
    decreases fuel, 1int, s, 2int,
{
    match s {
        ShortExprS::Ident(name) => match spec_get(st.scopes, name) {
            Some(o) => (st, Ok(o)),
            None => (st, Err(RtErr::BrokenInvariant)),
        },
        ShortExprS::GetByIndex(g) => spec_eval_gbi(st, g, fuel),
        ShortExprS::Literal(l) => (
            st,
            Ok(
                match l {
                    LiteralS::Int(v) => ObjV::Int(v),
                    LiteralS::Bool(b) => ObjV::Bool(b),
                    LiteralS::Char(c) => ObjV::Char(c),
                    LiteralS::String(s) => ObjV::Str(s),
                },
            ),
        ),
    }
}

/// An indexed read: the index first; a negative one or one past the end
/// is fatal. An array base reads the shared backing; a string base
/// reads one byte as a `Char`.
pub open spec fn spec_eval_gbi(st: StateS, g: GetByIndexS, fuel: nat) -> (
    StateS,
    Result<ObjV, RtErr>,
)
    decreases fuel, 1int, g, 1int,
{
    let (s1, ir) = spec_eval_sp_expr(st, *g.index, fuel);
    match ir {
        Err(e) => (s1, Err(e)),
        Ok(ObjV::Int(ix)) => if ix < 0 {
            (s1, Err(RtErr::IndexOutOfRange))
        } else {
            match spec_get(s1.scopes, g.ident.expr) {
                None => (s1, Err(RtErr::BrokenInvariant)),
                Some(ObjV::Arr(h)) => if 0 <= h < s1.arrays.len() {
                    if ix < s1.arrays[h].len() {
                        (s1, Ok(s1.arrays[h][ix as int]))
                    } else {
                        (s1, Err(RtErr::IndexOutOfRange))
                    }
                } else {
                    (s1, Err(RtErr::BrokenInvariant))
                },
                Some(ObjV::Str(sbytes)) => if ix < sbytes.len() {
                    (s1, Ok(ObjV::Char(sbytes[ix as int])))
                } else {
                    (s1, Err(RtErr::IndexOutOfRange))
                },
                Some(_) => (s1, Err(RtErr::BrokenInvariant)),
            }
        },
        Ok(_) => (s1, Err(RtErr::BrokenInvariant)),
    }
}

pub open spec fn spec_eval_top(st: StateS, t: TopExprS, fuel: nat) -> (StateS, Result<ObjV, RtErr>)
    decreases fuel, 1int, t, 3int,
{
    match t {
        TopExprS::ControlExpr(c) => spec_eval_control(st, c, fuel),
        TopExprS::Binding(b) => spec_eval_binding(st, b, fuel),
        TopExprS::Assign(a) => spec_eval_assign(st, a, fuel),
        TopExprS::Call(c) => spec_eval_call(st, c, fuel),
        TopExprS::SetByIndex(sb) => spec_eval_sbi(st, sb, fuel),
    }
}

/// `val`/`var`: the value is bound fresh in the innermost scope.
pub open spec fn spec_eval_binding(st: StateS, b: BindingS, fuel: nat) -> (
    StateS,
    Result<ObjV, RtErr>,
)
    decreases fuel, 1int, b, 2int,
{
    let (s1, r) = spec_eval_sp_expr(st, *b.set.expr, fuel);
    match r {
        Err(e) => (s1, Err(e)),
        Ok(v) => (spec_var(s1, b.set.name.expr, v), Ok(ObjV::Unit)),
    }
}

/// `x = e`: the innermost existing binding is overwritten.
pub open spec fn spec_eval_assign(st: StateS, a: AssignS, fuel: nat) -> (
    StateS,
    Result<ObjV, RtErr>,
)
    decreases fuel, 1int, a, 2int,
{
    let (s1, r) = spec_eval_sp_expr(st, *a.expr, fuel);
    match r {
        Err(e) => (s1, Err(e)),
        Ok(v) => match spec_set_in(s1.scopes, a.name.expr, v) {
            Some(scopes) => (StateS { scopes: scopes, ..s1 }, Ok(ObjV::Unit)),
            None => (s1, Err(RtErr::BrokenInvariant)),
        },
    }
}

/// `a[i] = e`: the value first, then the index; the write goes through
/// the shared handle, so every alias observes it; the variable is then
/// overwritten with the same handle.
pub open spec fn spec_eval_sbi(st: StateS, sb: SetByIndexS, fuel: nat) -> (
    StateS,
    Result<ObjV, RtErr>,
)
    decreases fuel, 1int, sb, 2int,
{
    let (s1, vr) = spec_eval_sp_expr(st, *sb.expr, fuel);
    match vr {
        Err(e) => (s1, Err(e)),
        Ok(value) => {
            let (s2, ir) = spec_eval_sp_expr(s1, *sb.get_by_index.index, fuel);
            match ir {
                Err(e) => (s2, Err(e)),
                Ok(ObjV::Int(ix)) => if ix < 0 {
                    (s2, Err(RtErr::IndexOutOfRange))
                } else {
                    match spec_get(s2.scopes, sb.get_by_index.ident.expr) {
                        Some(ObjV::Arr(h)) => if 0 <= h < s2.arrays.len() {
                            if ix < s2.arrays[h].len() {
                                let s3 = StateS {
                                    arrays: s2.arrays.update(
                                        h,
                                        s2.arrays[h].update(ix as int, value),
                                    ),
                                    ..s2
                                };
                                match spec_set_in(
                                    s3.scopes,
                                    sb.get_by_index.ident.expr,
                                    ObjV::Arr(h),
                                ) {
                                    Some(scopes) => (
                                        StateS { scopes: scopes, ..s3 },
                                        Ok(ObjV::Unit),
                                    ),
                                    None => (s3, Err(RtErr::BrokenInvariant)),
                                }
                            } else {
                                (s2, Err(RtErr::IndexOutOfRange))
                            }
                        } else {
                            (s2, Err(RtErr::BrokenInvariant))
                        },
                        _ => (s2, Err(RtErr::BrokenInvariant)),
                    }
                },
                Ok(_) => (s2, Err(RtErr::BrokenInvariant)),
            }
        },
    }
}

/// `f(args)`: the arguments left to right, then the call.
pub open spec fn spec_eval_call(st: StateS, c: CallS, fuel: nat) -> (StateS, Result<ObjV, RtErr>)
    decreases fuel, 1int, c, 2int,
{
    let (s1, r) = spec_eval_args(st, c.args, fuel);
    match r {
        Err(e) => (s1, Err(e)),
        Ok(vals) => spec_call_function(s1, c.name.expr, vals, fuel),
    }
}

pub open spec fn spec_eval_control(st: StateS, c: ControlExprS, fuel: nat) -> (
    StateS,
    Result<ObjV, RtErr>,
)
    decreases fuel, 1int, c, 2int,
{
    match c {
        ControlExprS::If(e) => spec_eval_if(st, e, fuel),
        ControlExprS::For(e) => spec_eval_for(st, e, fuel),
        ControlExprS::While(e) => spec_eval_while(st, e, fuel),
        ControlExprS::Return(e) => spec_eval_return(st, e, fuel),
    }
}

/// `return`: the pending-return slot takes the value (or `Unit`); the
/// enclosing body walks stop at their next check.
pub open spec fn spec_eval_return(st: StateS, e: ReturnS, fuel: nat) -> (
    StateS,
    Result<ObjV, RtErr>,
)
    decreases fuel, 1int, e, 1int,
{
    match e.0 {
        Some(inner) => {
            let (s1, r) = spec_eval_sp_expr(st, *inner, fuel);
            match r {
                Err(e2) => (s1, Err(e2)),
                Ok(v) => (StateS { ret: Some(v), ..s1 }, Ok(ObjV::Unit)),
            }
        },
        None => (StateS { ret: Some(ObjV::Unit), ..st }, Ok(ObjV::Unit)),
    }
}

/// `if`: exactly one branch runs, in a scope of its own.
pub open spec fn spec_eval_if(st: StateS, e: IfS, fuel: nat) -> (StateS, Result<ObjV, RtErr>)
    decreases fuel, 1int, e, 1int,
{
    let (s1, r) = spec_eval_sp_expr(st, *e.expr, fuel);
    match r {
        Err(e2) => (s1, Err(e2)),
        Ok(ObjV::Bool(b)) => {
            let pushed = StateS { scopes: s1.scopes.push(Seq::empty()), ..s1 };
            let (s2, br) = if b {
                spec_eval_body(pushed, e.body, fuel)
            } else {
                spec_eval_body(pushed, e.else_branch, fuel)
            };
            match br {
                Err(e2) => (s2, Err(e2)),
                Ok(_) => (
                    StateS {
                        scopes: if s2.scopes.len() > 0 {
                            s2.scopes.drop_last()
                        } else {
                            s2.scopes
                        },
                        ..s2
                    },
                    Ok(ObjV::Unit),
                ),
            }
        },
        Ok(_) => (s1, Err(RtErr::BrokenInvariant)),
    }
}

/// `while`: the condition is re-evaluated before each iteration, and
/// each iteration runs in a fresh scope; a pending return stops the
/// loop; each iteration burns one unit of fuel.
pub open spec fn spec_eval_while(st: StateS, e: WhileS, fuel: nat) -> (StateS, Result<ObjV, RtErr>)
    decreases fuel, 1int, e, 1int,
{
    let (s1, r) = spec_eval_sp_expr(st, *e.expr, fuel);
    match r {
        Err(e2) => (s1, Err(e2)),
        Ok(ObjV::Bool(false)) => (s1, Ok(ObjV::Unit)),
        Ok(ObjV::Bool(true)) => {
            let pushed = StateS { scopes: s1.scopes.push(Seq::empty()), ..s1 };
            let (s2, br) = spec_eval_body(pushed, e.body, fuel);
            match br {
                Err(e2) => (s2, Err(e2)),
                Ok(_) => {
                    let popped = StateS {
                        scopes: if s2.scopes.len() > 0 {
                            s2.scopes.drop_last()
                        } else {
                            s2.scopes
                        },
                        ..s2
                    };
                    if popped.ret is Some {
                        (popped, Ok(ObjV::Unit))
                    } else if fuel == 0 {
                        (popped, Err(RtErr::OutOfFuel))
                    } else {
                        spec_eval_while(popped, e, (fuel - 1) as nat)
                    }
                },
            }
        },
        Ok(_) => (s1, Err(RtErr::BrokenInvariant)),
    }
}

/// The iterations of a `for` loop over a fixed element sequence: the
/// loop variable is rebound each round in the loop's one shared scope,
/// and a pending return stops the iteration.
pub open spec fn spec_eval_for_items(st: StateS, e: ForS, items: Seq<ObjV>, fuel: nat) -> (
    StateS,
    Result<ObjV, RtErr>,
)
    decreases fuel, 1int, e.body, items.len(),
{
    if items.len() == 0 {
        (st, Ok(ObjV::Unit))
    } else {
        let bound = spec_var(st, e.var, items.first());
        let (s1, r) = spec_eval_body(bound, e.body, fuel);
        match r {
            Err(e2) => (s1, Err(e2)),
            Ok(_) => if s1.ret is Some {
                (s1, Ok(ObjV::Unit))
            } else {
                spec_eval_for_items(s1, e, items.drop_first(), fuel)
            },
        }
    }
}

/// The element sequence an iterable value yields: a string's bytes as
/// characters, a snapshot of an array's backing, or an inclusive
/// ascending integer range.
pub open spec fn spec_iter_items(st: StateS, v: ObjV) -> Option<Seq<ObjV>> {
    match v {
        ObjV::Str(s) => Some(Seq::new(s.len(), |k: int| ObjV::Char(s[k]))),
        ObjV::Arr(h) => if 0 <= h < st.arrays.len() {
            Some(st.arrays[h])
        } else {
            None
        },
        ObjV::Range(l, r) => match (*l, *r) {
            (ObjV::Int(a), ObjV::Int(b)) => Some(spec_range_items(a as int, b as int)),
            _ => None,
        },
        _ => None,
    }
}

/// `for`: the iterable's elements are fixed at loop entry; one scope is
/// pushed for the whole loop and popped at its end.
pub open spec fn spec_eval_for(st: StateS, e: ForS, fuel: nat) -> (StateS, Result<ObjV, RtErr>)
    decreases fuel, 1int, e, 1int,
{
    let (s1, r) = spec_eval_sp_expr(st, *e.iterable, fuel);
    match r {
        Err(e2) => (s1, Err(e2)),
        Ok(v) => match spec_iter_items(s1, v) {
            None => (s1, Err(RtErr::BrokenInvariant)),
            Some(items) => {
                let pushed = StateS { scopes: s1.scopes.push(Seq::empty()), ..s1 };
                let (s2, br) = spec_eval_for_items(pushed, e, items, fuel);
                match br {
                    Err(e2) => (s2, Err(e2)),
                    Ok(_) => (
                        StateS {
                            scopes: if s2.scopes.len() > 0 {
                                s2.scopes.drop_last()
                            } else {
                                s2.scopes
                            },
                            ..s2
                        },
                        Ok(ObjV::Unit),
                    ),
                }
            },
        },
    }
}

/// A whole run: `main` called with no arguments on a fresh state built
/// from the program and the input lines.
pub open spec fn spec_initial_state(funs: Seq<FunS>, input: Seq<Seq<u8>>) -> StateS {
    StateS {
        funs: funs,
        scopes: Seq::empty(),
        arrays: Seq::empty(),
        ret: None,
        input: input,
        in_pos: 0,
        output: Seq::empty(),
    }
}

pub open spec fn spec_run(st: StateS, fuel: nat) -> (StateS, Result<ObjV, RtErr>) {
    spec_call_function(st, bytes_main(), Seq::empty(), fuel)
}

pub broadcast proof fn lemma_bind_frame_len(params: Seq<(Seq<u8>, crate::ast::TypeS)>, args: Seq<ObjV>)
    ensures
        (#[trigger] spec_bind_frame(params, args)).len() == (if params.len() <= args.len() {
            params.len()
        } else {
            args.len()
        }),
    decreases params,
{
    if params.len() > 0 && args.len() > 0 {
        lemma_bind_frame_len(params.drop_first(), args.drop_first());
    }
}

pub broadcast proof fn lemma_bind_frame_index(
    params: Seq<(Seq<u8>, crate::ast::TypeS)>,
    args: Seq<ObjV>,
    i: int,
)
    requires
        0 <= i < params.len(),
        0 <= i < args.len(),
    ensures
        #[trigger] spec_bind_frame(params, args)[i] == (params[i].0, args[i]),
    decreases params,
{
    lemma_bind_frame_len(params, args);
    if i > 0 {
        lemma_bind_frame_index(params.drop_first(), args.drop_first(), i - 1);
    }
}

/// The pointwise description of parameter binding, as one group.
pub broadcast group group_eval_model {
    lemma_bind_frame_len,
    lemma_bind_frame_index,
}

} // verus!
