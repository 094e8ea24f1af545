//! The recursive-descent parser.
//!
//! Each function parses one construct from a window `[lo, hi)` of the
//! token sequence and returns the node with the position after it, or an
//! error; no token is consumed unless the whole sub-parse succeeds, and
//! failed alternatives cost nothing because the window is never mutated.
//! Every function's contract equates its outcome with the grammar twin
//! in [`grammar`](crate::parser::grammar).

use vstd::prelude::*;

pub mod expr;
pub mod grammar;

pub use grammar::ParseError;

use crate::ast::{Fun, FunS, Ident, Program, ProgramS, Spanned, Type, TypeS, fun_view, funs_view,
    params_view, program_view, type_view, types_view};
use crate::lexer::token::Token;
use crate::lexer::{Pair};
use expr::expect_body;
use grammar::{ParseOut, spec_expect_token, spec_parse_fun, spec_parse_ident, spec_parse_params,
    spec_parse_program, spec_parse_program_items, spec_parse_sp_ident, spec_parse_type,
    spec_parse_type_args, spec_skip_newlines};

verus! {

broadcast use vstd::std_specs::vec::group_vec_axioms;

/// The required token at `lo`, consumed.
pub fn expect_token(toks: &Vec<Pair>, lo: usize, hi: usize, t: Token) -> (r: Result<
    (Pair, usize),
    ParseError,
>)
    requires
        lo <= hi <= toks@.len(),
    ensures
        match r {
            Ok((p, np)) => spec_expect_token(toks@, lo as int, hi as int, t) == ParseOut::Parsed(
                p,
                np as int,
            ) && np == lo + 1 && lo < hi,
            Err(e) => spec_expect_token(toks@, lo as int, hi as int, t)
                == ParseOut::<Pair>::Failed(e),
        },
{
    if lo >= hi {
        Err(ParseError::UnexpectedEndOfInput)
    } else if toks[lo].token == t {
        Ok((toks[lo], lo + 1))
    } else {
        Err(ParseError::UnexpectedToken(toks[lo], t))
    }
}

/// The required one-byte symbol at `lo`, consumed.
pub fn expect_symbol(toks: &Vec<Pair>, lo: usize, hi: usize, sym: u8) -> (r: Result<
    usize,
    ParseError,
>)
    requires
        lo <= hi <= toks@.len(),
    ensures
        match r {
            Ok(np) => spec_expect_token(toks@, lo as int, hi as int, Token::Symbol(sym))
                == ParseOut::Parsed(toks@[lo as int], np as int) && np == lo + 1 && lo < hi,
            Err(e) => spec_expect_token(toks@, lo as int, hi as int, Token::Symbol(sym))
                == ParseOut::<Pair>::Failed(e),
        },
{
    match expect_token(toks, lo, hi, Token::Symbol(sym)) {
        Ok((_, np)) => Ok(np),
        Err(e) => Err(e),
    }
}

/// One leading occurrence of `t` skipped, if present.
pub fn ignore_token(toks: &Vec<Pair>, lo: usize, hi: usize, t: Token) -> (r: usize)
    requires
        lo <= hi <= toks@.len(),
    ensures
        r as int == (if lo < hi && toks@[lo as int].token == t {
            lo + 1
        } else {
            lo as int
        }),
        lo <= r <= hi,
{
    if lo < hi && toks[lo].token == t {
        lo + 1
    } else {
        lo
    }
}

/// All leading newline tokens skipped.
pub fn ignore_newlines(toks: &Vec<Pair>, lo: usize, hi: usize) -> (r: usize)
    requires
        lo <= hi <= toks@.len(),
    ensures
        r as int == spec_skip_newlines(toks@, lo as int, hi as int),
        lo <= r <= hi,
{
    let mut j: usize = lo;
    while j < hi && toks[j].token == Token::NewLine
        invariant
            lo <= j <= hi <= toks@.len(),
            spec_skip_newlines(toks@, lo as int, hi as int) == spec_skip_newlines(
                toks@,
                j as int,
                hi as int,
            ),
        decreases hi - j,
    {
        j += 1;
    }
    j
}

/// An identifier node from a single `Ident` token.
pub fn parse_ident(src: &[u8], toks: &Vec<Pair>, lo: usize, hi: usize) -> (r: Result<
    (Ident, usize),
    ParseError,
>)
    requires
        lo <= hi <= toks@.len(),
    ensures
        match r {
            Ok((id, np)) => spec_parse_ident(src@, toks@, lo as int, hi as int) == ParseOut::Parsed(
                id.0@,
                np as int,
            ) && np == lo + 1 && lo < hi,
            Err(e) => spec_parse_ident(src@, toks@, lo as int, hi as int) == ParseOut::<
                Seq<u8>,
            >::Failed(e),
        },
{
    match expect_token(toks, lo, hi, Token::Ident) {
        Ok((p, np)) => Ok((Ident(p.str(src)), np)),
        Err(e) => Err(e),
    }
}

/// A spanned identifier.
pub fn parse_sp_ident(src: &[u8], toks: &Vec<Pair>, lo: usize, hi: usize) -> (r: Result<
    (Spanned<Ident>, usize),
    ParseError,
>)
    requires
        lo <= hi <= toks@.len(),
    ensures
        match r {
            Ok((id, np)) => spec_parse_sp_ident(src@, toks@, lo as int, hi as int)
                == ParseOut::Parsed(
                Spanned { span: id.span, expr: id.expr.0@ },
                np as int,
            ) && np == lo + 1 && lo < hi,
            Err(e) => spec_parse_sp_ident(src@, toks@, lo as int, hi as int) == ParseOut::<
                Spanned<Seq<u8>>,
            >::Failed(e),
        },
{
    if lo >= hi {
        return Err(ParseError::UnexpectedEndOfInput);
    }
    let span_lo = toks[lo].span.lo;
    match parse_ident(src, toks, lo, hi) {
        Ok((id, np)) => {
            let span_hi = if np < hi {
                toks[np].span.lo
            } else {
                span_lo
            };
            Ok((Spanned { span: crate::lexer::Span { lo: span_lo, hi: span_hi }, expr: id }, np))
        },
        Err(e) => Err(e),
    }
}

/// A declared type: a name, generic when `<` follows.
pub fn parse_type(src: &[u8], toks: &Vec<Pair>, lo: usize, hi: usize) -> (r: Result<
    (Type, usize),
    ParseError,
>)
    requires
        lo <= hi <= toks@.len(),
    ensures
        match r {
            Ok((t, np)) => spec_parse_type(src@, toks@, lo as int, hi as int) == ParseOut::Parsed(
                type_view(t),
                np as int,
            ) && lo < np <= hi,
            Err(e) => spec_parse_type(src@, toks@, lo as int, hi as int) == ParseOut::<
                TypeS,
            >::Failed(e),
        },
    decreases hi - lo, 2int,
{
    match parse_ident(src, toks, lo, hi) {
        Ok((name, np)) => {
            match expect_symbol(toks, np, hi, 60) {
                Ok(np2) => match parse_type_args(src, toks, np2, hi) {
                    Ok((params, np3)) => {
                        let t = Type::Generic(name, params);
                        Ok((t, np3))
                    },
                    Err(e) => Err(e),
                },
                Err(_) => Ok((Type::Simple(name), np)),
            }
        },
        Err(e) => Err(e),
    }
}

/// The elements of a generic type's parameter list, after the opening
/// angle bracket.
pub fn parse_type_args(src: &[u8], toks: &Vec<Pair>, lo: usize, hi: usize) -> (r: Result<
    (Vec<Type>, usize),
    ParseError,
>)
    requires
        lo <= hi <= toks@.len(),
    ensures
        match r {
            Ok((ts, np)) => spec_parse_type_args(src@, toks@, lo as int, hi as int)
                == ParseOut::Parsed(types_view(ts@), np as int) && lo < np <= hi,
            Err(e) => spec_parse_type_args(src@, toks@, lo as int, hi as int) == ParseOut::<
                Seq<TypeS>,
            >::Failed(e),
        },
    decreases hi - lo, 8int,
{
    match expect_token(toks, lo, hi, Token::Symbol(62)) {
        Ok((_, np)) => {
            proof {
                assert(types_view(Seq::<Type>::empty()) =~= Seq::<TypeS>::empty());
            }
            Ok((Vec::new(), np))
        },
        Err(e) => {
            if !(matches!(e, ParseError::UnexpectedToken(_, _))) {
                return Err(e);
            }
            match parse_type(src, toks, lo, hi) {
                Ok((el, np)) => {
                    let np2 = match expect_token(toks, np, hi, Token::Symbol(44)) {
                        Ok((_, q)) => q,
                        Err(_) => np,
                    };
                    match parse_type_args(src, toks, np2, hi) {
                        Ok((rest, fin)) => {
                            let ghost rest_view = types_view(rest@);
                            let mut out = rest;
                            out.insert(0, el);
                            proof {
                                assert(out@.drop_first() =~= rest@);
                                assert(types_view(out@) =~= seq![type_view(el)] + rest_view);
                            }
                            Ok((out, fin))
                        },
                        Err(e2) => Err(e2),
                    }
                },
                Err(e2) => Err(e2),
            }
        },
    }
}

/// The elements of a function's parameter list, after the opening paren:
/// each is `name : Type`; a missing comma between elements is tolerated.
pub fn parse_params(src: &[u8], toks: &Vec<Pair>, lo: usize, hi: usize) -> (r: Result<
    (Vec<(Ident, Type)>, usize),
    ParseError,
>)
    requires
        lo <= hi <= toks@.len(),
    ensures
        match r {
            Ok((ps, np)) => spec_parse_params(src@, toks@, lo as int, hi as int)
                == ParseOut::Parsed(params_view(ps@), np as int) && lo < np <= hi,
            Err(e) => spec_parse_params(src@, toks@, lo as int, hi as int) == ParseOut::<
                Seq<(Seq<u8>, TypeS)>,
            >::Failed(e),
        },
    decreases hi - lo, 8int,
{
    match expect_token(toks, lo, hi, Token::Symbol(41)) {
        Ok((_, np)) => {
            proof {
                assert(params_view(Seq::<(Ident, Type)>::empty()) =~= Seq::<
                    (Seq<u8>, TypeS),
                >::empty());
            }
            Ok((Vec::new(), np))
        },
        Err(e) => {
            if !(matches!(e, ParseError::UnexpectedToken(_, _))) {
                return Err(e);
            }
            let el = match parse_ident(src, toks, lo, hi) {
                Ok((name, a)) => match expect_symbol(toks, a, hi, 58) {
                    Ok(b) => match parse_type(src, toks, b, hi) {
                        Ok((ty, c)) => Ok(((name, ty), c)),
                        Err(e2) => Err(e2),
                    },
                    Err(e2) => Err(e2),
                },
                Err(e2) => Err(e2),
            };
            match el {
                Ok((pair, np)) => {
                    let np2 = match expect_token(toks, np, hi, Token::Symbol(44)) {
                        Ok((_, q)) => q,
                        Err(_) => np,
                    };
                    match parse_params(src, toks, np2, hi) {
                        Ok((rest, fin)) => {
                            let ghost rest_view = params_view(rest@);
                            let ghost pv = (pair.0.0@, type_view(pair.1));
                            let mut out = rest;
                            out.insert(0, pair);
                            proof {
                                assert(out@.drop_first() =~= rest@);
                                assert(params_view(out@) =~= seq![pv] + rest_view);
                            }
                            Ok((out, fin))
                        },
                        Err(e2) => Err(e2),
                    }
                },
                Err(e2) => Err(e2),
            }
        },
    }
}

impl Fun {
    /// One function declaration: `fun name(params)`, an optional
    /// `: Type`, and a braced body.
    pub fn try_parse(src: &[u8], toks: &Vec<Pair>, lo: usize, hi: usize) -> (r: Result<
        (Fun, usize),
        ParseError,
    >)
        requires
            lo <= hi <= toks@.len(),
        ensures
            match r {
                Ok((f, np)) => spec_parse_fun(src@, toks@, lo as int, hi as int)
                    == ParseOut::Parsed(fun_view(f), np as int) && lo < np <= hi,
                Err(e) => spec_parse_fun(src@, toks@, lo as int, hi as int) == ParseOut::<
                    FunS,
                >::Failed(e),
            },
        decreases hi - lo, 2int,
    {
        let (_, a) = match expect_token(toks, lo, hi, Token::Fun) {
            Ok(v) => v,
            Err(e) => {
                return Err(e);
            },
        };
        let (name, b) = match parse_ident(src, toks, a, hi) {
            Ok(v) => v,
            Err(e) => {
                return Err(e);
            },
        };
        let c = match expect_symbol(toks, b, hi, 40) {
            Ok(v) => v,
            Err(e) => {
                return Err(e);
            },
        };
        let (args, d) = match parse_params(src, toks, c, hi) {
            Ok(v) => v,
            Err(e) => {
                return Err(e);
            },
        };
        let (ret_type, g): (Option<Type>, usize) = match expect_symbol(toks, d, hi, 58) {
            Ok(e_pos) => match parse_type(src, toks, e_pos, hi) {
                Ok((ty, f)) => (Some(ty), f),
                Err(e2) => {
                    return Err(e2);
                },
            },
            Err(_) => (None, d),
        };
        let (body, h) = match expect_body(src, toks, g, hi) {
            Ok(v) => v,
            Err(e2) => {
                return Err(e2);
            },
        };
        let f = Fun { name, ret_type, args, body };
        Ok((f, h))
    }
}

/// The functions of a whole token stream: leading newlines are skipped
/// before each declaration.
fn parse_program_items(src: &[u8], toks: &Vec<Pair>, lo: usize, hi: usize) -> (r: Result<
    (Vec<Fun>, usize),
    ParseError,
>)
    requires
        lo <= hi <= toks@.len(),
    ensures
        match r {
            Ok((fs, np)) => spec_parse_program_items(src@, toks@, lo as int, hi as int)
                == ParseOut::Parsed(funs_view(fs@), np as int) && np == hi,
            Err(e) => spec_parse_program_items(src@, toks@, lo as int, hi as int) == ParseOut::<
                Seq<FunS>,
            >::Failed(e),
        },
    decreases hi - lo, 8int,
{
    let p1 = ignore_newlines(toks, lo, hi);
    if p1 >= hi {
        proof {
            assert(funs_view(Seq::<Fun>::empty()) =~= Seq::<FunS>::empty());
        }
        return Ok((Vec::new(), hi));
    }
    match Fun::try_parse(src, toks, p1, hi) {
        Ok((f, np)) => match parse_program_items(src, toks, np, hi) {
            Ok((rest, fin)) => {
                let ghost rest_view = funs_view(rest@);
                let ghost fv = fun_view(f);
                let mut out = rest;
                out.insert(0, f);
                proof {
                    assert(out@.drop_first() =~= rest@);
                    assert(funs_view(out@) =~= seq![fv] + rest_view);
                }
                Ok((out, fin))
            },
            Err(e2) => Err(e2),
        },
        Err(e2) => Err(e2),
    }
}

/// Parses a whole token stream into a `Program`. On success the second
/// component is the position after the last declaration, always the end
/// of the stream; the caller need not check for leftovers.
pub fn try_parse(src: &[u8], toks: &Vec<Pair>) -> (r: Result<(Program, usize), ParseError>)
    ensures
        match r {
            Ok((p, np)) => spec_parse_program(src@, toks@) == ParseOut::Parsed(
                program_view(p),
                np as int,
            ) && np == toks@.len(),
            Err(e) => spec_parse_program(src@, toks@) == ParseOut::<ProgramS>::Failed(e),
        },
{
    match parse_program_items(src, toks, 0, toks.len()) {
        Ok((functions, np)) => Ok((Program { functions }, np)),
        Err(e) => Err(e),
    }
}

impl Program {
    /// Parses a whole token stream.
    pub fn try_parse(src: &[u8], toks: &Vec<Pair>) -> (r: Result<
        (Program, usize),
        ParseError,
    >)
        ensures
            match r {
                Ok((p, np)) => spec_parse_program(src@, toks@) == ParseOut::Parsed(
                    program_view(p),
                    np as int,
                ) && np == toks@.len(),
                Err(e) => spec_parse_program(src@, toks@) == ParseOut::<ProgramS>::Failed(e),
            },
    {
        crate::parser::try_parse(src, toks)
    }
}

} // verus!
