//! The grammar, as a family of total functions over token windows.
//!
//! Every parsing function of the executable parser has its twin here:
//! `spec_parse_x(src, toks, lo, hi)` says exactly what tree the window
//! `[lo, hi)` of the token sequence yields, or which error. Alternatives
//! are tried in a fixed order and the first success wins; binary operators
//! split at the first occurrence of their token at paren-nesting depth
//! zero, and the left part must parse with nothing left over. The few
//! guard branches that demand a successful sub-parse to have consumed at
//! least one token are never reached (every successful parse consumes at
//! least one token, as the executable parser's contracts state); they
//! keep each function visibly well-founded.

use vstd::prelude::*;

use crate::ast::{
    AssignS, BinS, BindingS, CallS, ComparisonExprS, ControlExprS, ExprS, ForS, FunS, GetByIndexS,
    IfS, LiteralS, MathExprS, ProgramS, ReturnS, SetByIndexS, ShortExprS, Spanned, TopExprS,
    TypeS, WhileS,
};
use crate::lexer::token::Token;
use crate::lexer::{Pair, Span, spec_span_text};

verus! {

/// Why a parse attempt failed.
#[derive(Debug, Clone, Copy, PartialEq, Eq, Structural)]
pub enum ParseError {
    /// Ran out of tokens in the middle of a construct.
    UnexpectedEndOfInput,
    /// Scaffold value for unimplemented node kinds; never produced.
    NotImplementedYet,
    /// A whole alternative set failed at this token.
    WrongExprType(Pair),
    /// This token stood where the given one was required.
    UnexpectedToken(Pair, Token),
}

/// The outcome of one parse attempt: a node with the position after it,
/// or an error.
pub enum ParseOut<T> {
    Parsed(T, int),
    Failed(ParseError),
}

/// The required token at `lo`, consumed.
pub open spec fn spec_expect_token(toks: Seq<Pair>, lo: int, hi: int, t: Token) -> ParseOut<Pair> {
    if lo >= hi {
        ParseOut::Failed(ParseError::UnexpectedEndOfInput)
    } else if toks[lo].token == t {
        ParseOut::Parsed(toks[lo], lo + 1)
    } else {
        ParseOut::Failed(ParseError::UnexpectedToken(toks[lo], t))
    }
}

/// One leading `NewLine` token skipped, if present.
pub open spec fn spec_skip_one_newline(toks: Seq<Pair>, lo: int, hi: int) -> int {
    if lo < hi && toks[lo].token == Token::NewLine {
        lo + 1
    } else {
        lo
    }
}

/// All leading `NewLine` tokens skipped.
pub open spec fn spec_skip_newlines(toks: Seq<Pair>, lo: int, hi: int) -> int
    decreases hi - lo,
{
    if lo < hi && toks[lo].token == Token::NewLine {
        spec_skip_newlines(toks, lo + 1, hi)
    } else {
        lo
    }
}

/// The first position in `[j, hi)` at which `t` stands at paren-nesting
/// depth zero. The nesting count follows the scan: an opening paren
/// raises it before the check, a closing one lowers it.
pub open spec fn spec_toplevel_index(toks: Seq<Pair>, j: int, hi: int, t: Token, nest: int) -> Option<
    int,
>
    decreases hi - j,
{
    if j >= hi {
        None
    } else {
        let n2 = if toks[j].token == Token::Symbol(40) {
            nest + 1
        } else if toks[j].token == Token::Symbol(41) {
            nest - 1
        } else {
            nest
        };
        if n2 == 0 && toks[j].token == t {
            Some(j)
        } else {
            spec_toplevel_index(toks, j + 1, hi, t, n2)
        }
    }
}

/// The matching closing paren for an opening one already consumed:
/// the scan starts with a nesting count of one.
pub open spec fn spec_close_paren(toks: Seq<Pair>, j: int, hi: int, nest: int) -> Option<int>
    decreases hi - j,
{
    if j >= hi {
        None
    } else if toks[j].token == Token::Symbol(41) && nest - 1 == 0 {
        Some(j)
    } else {
        let n2 = if toks[j].token == Token::Symbol(40) {
            nest + 1
        } else if toks[j].token == Token::Symbol(41) {
            nest - 1
        } else {
            nest
        };
        spec_close_paren(toks, j + 1, hi, n2)
    }
}

/// The value a character literal token denotes: the byte after the
/// opening quote, or what its escape stands for.
pub open spec fn spec_char_value(text: Seq<u8>) -> u8 {
    let c = if text.len() >= 2 {
        text[1]
    } else {
        0
    };
    if c == 92 && text.len() >= 3 {
        let e = text[2];
        if e == 116 {
            9  // \t
        } else if e == 98 {
            8  // \b
        } else if e == 110 {
            10  // \n
        } else if e == 114 {
            13  // \r
        } else {
            e
        }
    } else {
        c
    }
}

/// A string literal's content with its escapes resolved; a trailing lone
/// backslash is dropped.
pub open spec fn spec_unescape(w: Seq<u8>) -> Seq<u8>
    decreases w.len(),
{
    if w.len() == 0 {
        Seq::empty()
    } else if w[0] == 92 {
        if w.len() >= 2 {
            let c = w[1];
            let e: u8 = if c == 116 {
                9
            } else if c == 98 {
                8
            } else if c == 110 {
                10
            } else if c == 114 {
                13
            } else {
                c
            };
            seq![e] + spec_unescape(w.skip(2))
        } else {
            Seq::empty()
        }
    } else {
        seq![w[0]] + spec_unescape(w.skip(1))
    }
}

/// The value a string literal token denotes: the bytes between the
/// quotes, unescaped.
pub open spec fn spec_string_value(text: Seq<u8>) -> Seq<u8> {
    if text.len() >= 2 {
        spec_unescape(text.subrange(1, text.len() - 1))
    } else {
        Seq::empty()
    }
}

/// A literal node from a single literal token.
pub open spec fn spec_parse_literal(src: Seq<u8>, toks: Seq<Pair>, lo: int, hi: int) -> ParseOut<
    LiteralS,
> {
    if lo >= hi {
        ParseOut::Failed(ParseError::UnexpectedEndOfInput)
    } else {
        let p = toks[lo];
        match p.token {
            Token::Char => ParseOut::Parsed(
                LiteralS::Char(spec_char_value(spec_span_text(src, p.span))),
                lo + 1,
            ),
            Token::Str => ParseOut::Parsed(
                LiteralS::String(spec_string_value(spec_span_text(src, p.span))),
                lo + 1,
            ),
            Token::Int(v) => ParseOut::Parsed(LiteralS::Int(v), lo + 1),
            Token::Bool(b) => ParseOut::Parsed(LiteralS::Bool(b), lo + 1),
            _ => ParseOut::Failed(ParseError::WrongExprType(p)),
        }
    }
}

/// An identifier's text from a single `Ident` token.
pub open spec fn spec_parse_ident(src: Seq<u8>, toks: Seq<Pair>, lo: int, hi: int) -> ParseOut<
    Seq<u8>,
> {
    match spec_expect_token(toks, lo, hi, Token::Ident) {
        ParseOut::Parsed(p, np) => ParseOut::Parsed(spec_span_text(src, p.span), np),
        ParseOut::Failed(e) => ParseOut::Failed(e),
    }
}

/// The span a node parsed over `[lo, np)` carries: from the first
/// token's start to the start of the first token left over, or back to
/// its own start when nothing is left in the window.
pub open spec fn spec_node_span(toks: Seq<Pair>, lo: int, np: int, hi: int) -> Span {
    let l = toks[lo].span.lo;
    let h = if np < hi {
        toks[np].span.lo
    } else {
        l
    };
    Span { lo: l, hi: h }
}

/// A spanned identifier.
pub open spec fn spec_parse_sp_ident(src: Seq<u8>, toks: Seq<Pair>, lo: int, hi: int) -> ParseOut<
    Spanned<Seq<u8>>,
> {
    if lo >= hi {
        ParseOut::Failed(ParseError::UnexpectedEndOfInput)
    } else {
        match spec_parse_ident(src, toks, lo, hi) {
            ParseOut::Parsed(id, np) => ParseOut::Parsed(
                Spanned { span: spec_node_span(toks, lo, np, hi), expr: id },
                np,
            ),
            ParseOut::Failed(e) => ParseOut::Failed(e),
        }
    }
}

/// `ident [ expr ]`.
pub open spec fn spec_parse_gbi(src: Seq<u8>, toks: Seq<Pair>, lo: int, hi: int) -> ParseOut<
    GetByIndexS,
>
    decreases hi - lo, 2int,
{
    match spec_parse_sp_ident(src, toks, lo, hi) {
        ParseOut::Parsed(id, np) => if np <= lo || np > hi {
            ParseOut::Failed(ParseError::UnexpectedEndOfInput)
        } else {
            match spec_expect_token(toks, np, hi, Token::Symbol(91)) {
                ParseOut::Parsed(_, np2) => match spec_parse_sp_expr(src, toks, np2, hi) {
                    ParseOut::Parsed(ix, np3) => match spec_expect_token(
                        toks,
                        np3,
                        hi,
                        Token::Symbol(93),
                    ) {
                        ParseOut::Parsed(_, np4) => ParseOut::Parsed(
                            GetByIndexS { ident: id, index: Box::new(ix) },
                            np4,
                        ),
                        ParseOut::Failed(e) => ParseOut::Failed(e),
                    },
                    ParseOut::Failed(e) => ParseOut::Failed(e),
                },
                ParseOut::Failed(e) => ParseOut::Failed(e),
            }
        },
        ParseOut::Failed(e) => ParseOut::Failed(e),
    }
}

/// The innermost level: a literal from a literal token; on an `Ident`
/// token first `ident[expr]`, then a plain identifier.
pub open spec fn spec_parse_short(src: Seq<u8>, toks: Seq<Pair>, lo: int, hi: int) -> ParseOut<
    ShortExprS,
>
    decreases hi - lo, 3int,
{
    if lo >= hi {
        ParseOut::Failed(ParseError::UnexpectedEndOfInput)
    } else {
        match toks[lo].token {
            Token::Char | Token::Str | Token::Int(_) | Token::Bool(_) => match spec_parse_literal(
                src,
                toks,
                lo,
                hi,
            ) {
                ParseOut::Parsed(l, np) => ParseOut::Parsed(ShortExprS::Literal(l), np),
                ParseOut::Failed(e) => ParseOut::Failed(e),
            },
            Token::Ident => match spec_parse_gbi(src, toks, lo, hi) {
                ParseOut::Parsed(g, np) => ParseOut::Parsed(ShortExprS::GetByIndex(g), np),
                ParseOut::Failed(_) => match spec_parse_ident(src, toks, lo, hi) {
                    ParseOut::Parsed(id, np) => ParseOut::Parsed(ShortExprS::Ident(id), np),
                    ParseOut::Failed(e) => ParseOut::Failed(e),
                },
            },
            _ => ParseOut::Failed(ParseError::WrongExprType(toks[lo])),
        }
    }
}

/// A unary operator: its symbol, then a full expression.
pub open spec fn spec_parse_unary(src: Seq<u8>, toks: Seq<Pair>, lo: int, hi: int, sym: u8) -> ParseOut<
    Box<Spanned<ExprS>>,
>
    decreases hi - lo, 2int,
{
    match spec_expect_token(toks, lo, hi, Token::Symbol(sym)) {
        ParseOut::Parsed(_, np) => match spec_parse_sp_expr(src, toks, np, hi) {
            ParseOut::Parsed(e, np2) => ParseOut::Parsed(Box::new(e), np2),
            ParseOut::Failed(e) => ParseOut::Failed(e),
        },
        ParseOut::Failed(e) => ParseOut::Failed(e),
    }
}

/// A binary operator: the window splits at the first occurrence of the
/// operator token at nesting depth zero; the left part must parse as a
/// complete expression with no tokens left, the right part continues.
pub open spec fn spec_parse_binop(src: Seq<u8>, toks: Seq<Pair>, lo: int, hi: int, op: Token) -> ParseOut<
    BinS,
>
    decreases hi - lo, 2int,
{
    match spec_toplevel_index(toks, lo, hi, op, 0) {
        None => ParseOut::Failed(ParseError::UnexpectedEndOfInput),
        Some(pos) => if pos < lo || pos >= hi {
            ParseOut::Failed(ParseError::UnexpectedEndOfInput)
        } else {
            match spec_parse_sp_expr(src, toks, lo, pos) {
                ParseOut::Parsed(left, np) => if np != pos {
                    ParseOut::Failed(ParseError::WrongExprType(toks[lo]))
                } else {
                    match spec_parse_sp_expr(src, toks, pos + 1, hi) {
                        ParseOut::Parsed(right, np2) => ParseOut::Parsed(
                            BinS { left: Box::new(left), right: Box::new(right) },
                            np2,
                        ),
                        ParseOut::Failed(e) => ParseOut::Failed(e),
                    }
                },
                ParseOut::Failed(e) => ParseOut::Failed(e),
            }
        },
    }
}

/// A parenthesized group: the matching close paren is found by nesting
/// count; the enclosed window must hold one expression at its head, and
/// whatever that expression leaves unconsumed is discarded.
pub open spec fn spec_parse_parens(src: Seq<u8>, toks: Seq<Pair>, lo: int, hi: int) -> ParseOut<
    Box<Spanned<ExprS>>,
>
    decreases hi - lo, 2int,
{
    match spec_expect_token(toks, lo, hi, Token::Symbol(40)) {
        ParseOut::Parsed(_, np) => match spec_close_paren(toks, np, hi, 1) {
            None => ParseOut::Failed(ParseError::UnexpectedEndOfInput),
            Some(k) => if k < np || k >= hi {
                ParseOut::Failed(ParseError::UnexpectedEndOfInput)
            } else {
                match spec_parse_sp_expr(src, toks, np, k) {
                    ParseOut::Parsed(e, _) => ParseOut::Parsed(Box::new(e), k + 1),
                    ParseOut::Failed(e) => ParseOut::Failed(e),
                }
            },
        },
        ParseOut::Failed(e) => ParseOut::Failed(e),
    }
}

/// The arithmetic level, tried in declaration order; operators listed
/// earlier bind looser.
pub open spec fn spec_parse_math(src: Seq<u8>, toks: Seq<Pair>, lo: int, hi: int) -> ParseOut<
    MathExprS,
>
    decreases hi - lo, 4int,
{
    if lo >= hi {
        ParseOut::Failed(ParseError::UnexpectedEndOfInput)
    } else {
        match spec_parse_unary(src, toks, lo, hi, 45) {
            ParseOut::Parsed(e, np) => ParseOut::Parsed(MathExprS::Neg(e), np),
            ParseOut::Failed(_) => match spec_parse_unary(src, toks, lo, hi, 33) {
                ParseOut::Parsed(e, np) => ParseOut::Parsed(MathExprS::BoolNeg(e), np),
                ParseOut::Failed(_) => match spec_parse_binop(src, toks, lo, hi, Token::RangeOp) {
                    ParseOut::Parsed(b, np) => ParseOut::Parsed(MathExprS::Range(b), np),
                    ParseOut::Failed(_) => match spec_parse_binop(
                        src,
                        toks,
                        lo,
                        hi,
                        Token::Symbol(45),
                    ) {
                        ParseOut::Parsed(b, np) => ParseOut::Parsed(MathExprS::Sub(b), np),
                        ParseOut::Failed(_) => match spec_parse_binop(
                            src,
                            toks,
                            lo,
                            hi,
                            Token::Symbol(43),
                        ) {
                            ParseOut::Parsed(b, np) => ParseOut::Parsed(MathExprS::Add(b), np),
                            ParseOut::Failed(_) => match spec_parse_binop(
                                src,
                                toks,
                                lo,
                                hi,
                                Token::Symbol(42),
                            ) {
                                ParseOut::Parsed(b, np) => ParseOut::Parsed(MathExprS::Mul(b), np),
                                ParseOut::Failed(_) => match spec_parse_binop(
                                    src,
                                    toks,
                                    lo,
                                    hi,
                                    Token::Symbol(47),
                                ) {
                                    ParseOut::Parsed(b, np) => ParseOut::Parsed(MathExprS::Div(b), np),
                                    ParseOut::Failed(_) => match spec_parse_parens(
                                        src,
                                        toks,
                                        lo,
                                        hi,
                                    ) {
                                        ParseOut::Parsed(e, np) => ParseOut::Parsed(
                                            MathExprS::Parens(e),
                                            np,
                                        ),
                                        ParseOut::Failed(_) => ParseOut::Failed(
                                            ParseError::WrongExprType(toks[lo]),
                                        ),
                                    },
                                },
                            },
                        },
                    },
                },
            },
        }
    }
}

/// The comparison level, tried in declaration order.
pub open spec fn spec_parse_cmp(src: Seq<u8>, toks: Seq<Pair>, lo: int, hi: int) -> ParseOut<
    ComparisonExprS,
>
    decreases hi - lo, 4int,
{
    if lo >= hi {
        ParseOut::Failed(ParseError::UnexpectedEndOfInput)
    } else {
        match spec_parse_binop(src, toks, lo, hi, Token::AndOp) {
            ParseOut::Parsed(b, np) => ParseOut::Parsed(ComparisonExprS::And(b), np),
            ParseOut::Failed(_) => match spec_parse_binop(src, toks, lo, hi, Token::OrOp) {
                ParseOut::Parsed(b, np) => ParseOut::Parsed(ComparisonExprS::Or(b), np),
                ParseOut::Failed(_) => match spec_parse_binop(src, toks, lo, hi, Token::Symbol(60)) {
                    ParseOut::Parsed(b, np) => ParseOut::Parsed(ComparisonExprS::LessThan(b), np),
                    ParseOut::Failed(_) => match spec_parse_binop(
                        src,
                        toks,
                        lo,
                        hi,
                        Token::Symbol(62),
                    ) {
                        ParseOut::Parsed(b, np) => ParseOut::Parsed(ComparisonExprS::MoreThan(b), np),
                        ParseOut::Failed(_) => ParseOut::Failed(ParseError::WrongExprType(toks[lo])),
                    },
                },
            },
        }
    }
}

/// `x = expr`.
pub open spec fn spec_parse_assign(src: Seq<u8>, toks: Seq<Pair>, lo: int, hi: int) -> ParseOut<
    AssignS,
>
    decreases hi - lo, 3int,
{
    match spec_parse_sp_ident(src, toks, lo, hi) {
        ParseOut::Parsed(name, np) => if np <= lo || np > hi {
            ParseOut::Failed(ParseError::UnexpectedEndOfInput)
        } else {
            match spec_expect_token(toks, np, hi, Token::Symbol(61)) {
                ParseOut::Parsed(_, np2) => match spec_parse_sp_expr(src, toks, np2, hi) {
                    ParseOut::Parsed(e, np3) => ParseOut::Parsed(
                        AssignS { name: name, expr: Box::new(e) },
                        np3,
                    ),
                    ParseOut::Failed(e) => ParseOut::Failed(e),
                },
                ParseOut::Failed(e) => ParseOut::Failed(e),
            }
        },
        ParseOut::Failed(e) => ParseOut::Failed(e),
    }
}

/// The elements of a call's argument list, after the opening paren: the
/// closing paren ends the list; after an element a separator may stand,
/// and a missing one is tolerated.
pub open spec fn spec_parse_args(src: Seq<u8>, toks: Seq<Pair>, lo: int, hi: int) -> ParseOut<
    Seq<Spanned<ExprS>>,
>
    decreases hi - lo, 8int,
{
    match spec_expect_token(toks, lo, hi, Token::Symbol(41)) {
        ParseOut::Parsed(_, np) => ParseOut::Parsed(Seq::empty(), np),
        ParseOut::Failed(e) => if !(e is UnexpectedToken) {
            ParseOut::Failed(e)
        } else {
            match spec_parse_sp_expr(src, toks, lo, hi) {
                ParseOut::Parsed(el, np) => if np <= lo || np > hi {
                    ParseOut::Failed(ParseError::UnexpectedEndOfInput)
                } else {
                    let np2 = match spec_expect_token(toks, np, hi, Token::Symbol(44)) {
                        ParseOut::Parsed(_, q) => q,
                        ParseOut::Failed(_) => np,
                    };
                    if np2 < np || np2 > hi {
                        ParseOut::Failed(ParseError::UnexpectedEndOfInput)
                    } else {
                        match spec_parse_args(src, toks, np2, hi) {
                            ParseOut::Parsed(rest, fin) => ParseOut::Parsed(seq![el] + rest, fin),
                            ParseOut::Failed(e2) => ParseOut::Failed(e2),
                        }
                    }
                },
                ParseOut::Failed(e2) => ParseOut::Failed(e2),
            }
        },
    }
}

/// `f(args)`. In the original grammar a separator error of the kind
/// `UnexpectedEndOfInput` would abort the sequence; that can only arise
/// from an empty window, where the end check fails the same way first.
pub open spec fn spec_parse_call(src: Seq<u8>, toks: Seq<Pair>, lo: int, hi: int) -> ParseOut<
    CallS,
>
    decreases hi - lo, 3int,
{
    match spec_parse_sp_ident(src, toks, lo, hi) {
        ParseOut::Parsed(name, np) => if np <= lo || np > hi {
            ParseOut::Failed(ParseError::UnexpectedEndOfInput)
        } else {
            match spec_expect_token(toks, np, hi, Token::Symbol(40)) {
                ParseOut::Parsed(_, np2) => match spec_parse_args(src, toks, np2, hi) {
                    ParseOut::Parsed(args, np3) => ParseOut::Parsed(CallS { name: name, args: args }, np3),
                    ParseOut::Failed(e) => ParseOut::Failed(e),
                },
                ParseOut::Failed(e) => ParseOut::Failed(e),
            }
        },
        ParseOut::Failed(e) => ParseOut::Failed(e),
    }
}

/// `a[i] = expr`.
pub open spec fn spec_parse_sbi(src: Seq<u8>, toks: Seq<Pair>, lo: int, hi: int) -> ParseOut<
    SetByIndexS,
>
    decreases hi - lo, 3int,
{
    match spec_parse_gbi(src, toks, lo, hi) {
        ParseOut::Parsed(g, np) => if np <= lo || np > hi {
            ParseOut::Failed(ParseError::UnexpectedEndOfInput)
        } else {
            match spec_expect_token(toks, np, hi, Token::Symbol(61)) {
                ParseOut::Parsed(_, np2) => match spec_parse_sp_expr(src, toks, np2, hi) {
                    ParseOut::Parsed(e, np3) => ParseOut::Parsed(
                        SetByIndexS { get_by_index: g, expr: Box::new(e) },
                        np3,
                    ),
                    ParseOut::Failed(e) => ParseOut::Failed(e),
                },
                ParseOut::Failed(e) => ParseOut::Failed(e),
            }
        },
        ParseOut::Failed(e) => ParseOut::Failed(e),
    }
}

/// `val x = e` or `var x = e`. When neither keyword leads, the error
/// points at the second token of the window.
pub open spec fn spec_parse_binding(src: Seq<u8>, toks: Seq<Pair>, lo: int, hi: int) -> ParseOut<
    BindingS,
>
    decreases hi - lo, 3int,
{
    let kw = match spec_expect_token(toks, lo, hi, Token::Val) {
        ParseOut::Parsed(p, np) => Some((false, np)),
        ParseOut::Failed(_) => match spec_expect_token(toks, lo, hi, Token::Var) {
            ParseOut::Parsed(p, np) => Some((true, np)),
            ParseOut::Failed(_) => None,
        },
    };
    match kw {
        None => if lo + 1 >= hi {
            ParseOut::Failed(ParseError::UnexpectedEndOfInput)
        } else {
            ParseOut::Failed(ParseError::WrongExprType(toks[lo + 1]))
        },
        Some((is_mut, np)) => match spec_parse_assign(src, toks, np, hi) {
            ParseOut::Parsed(a, np2) => ParseOut::Parsed(BindingS { is_mut: is_mut, set: a }, np2),
            ParseOut::Failed(e) => ParseOut::Failed(e),
        },
    }
}

/// `return`, with an expression when one parses after it.
pub open spec fn spec_parse_return(src: Seq<u8>, toks: Seq<Pair>, lo: int, hi: int) -> ParseOut<
    ReturnS,
>
    decreases hi - lo, 2int,
{
    match spec_expect_token(toks, lo, hi, Token::Return) {
        ParseOut::Parsed(_, np) => match spec_parse_sp_expr(src, toks, np, hi) {
            ParseOut::Parsed(e, np2) => ParseOut::Parsed(ReturnS(Some(Box::new(e))), np2),
            ParseOut::Failed(_) => ParseOut::Parsed(ReturnS(None), np),
        },
        ParseOut::Failed(e) => ParseOut::Failed(e),
    }
}

/// The statements of a `{ ... }` body after the opening brace: one
/// leading newline is skipped each round, the closing brace ends the
/// body, and otherwise exactly one statement must parse.
pub open spec fn spec_parse_body_items(src: Seq<u8>, toks: Seq<Pair>, lo: int, hi: int) -> ParseOut<
    Seq<Spanned<TopExprS>>,
>
    decreases hi - lo, 8int,
{
    let p1 = spec_skip_one_newline(toks, lo, hi);
    match spec_expect_token(toks, p1, hi, Token::Symbol(125)) {
        ParseOut::Parsed(_, np) => ParseOut::Parsed(Seq::empty(), np),
        ParseOut::Failed(e) => if !(e is UnexpectedToken) {
            ParseOut::Failed(e)
        } else {
            match spec_parse_sp_top(src, toks, p1, hi) {
                ParseOut::Parsed(el, np) => if np <= p1 || np > hi {
                    ParseOut::Failed(ParseError::UnexpectedEndOfInput)
                } else {
                    match spec_parse_body_items(src, toks, np, hi) {
                        ParseOut::Parsed(rest, fin) => ParseOut::Parsed(seq![el] + rest, fin),
                        ParseOut::Failed(e2) => ParseOut::Failed(e2),
                    }
                },
                ParseOut::Failed(e2) => ParseOut::Failed(e2),
            }
        },
    }
}

/// A `{ ... }` body.
pub open spec fn spec_parse_body(src: Seq<u8>, toks: Seq<Pair>, lo: int, hi: int) -> ParseOut<
    Seq<Spanned<TopExprS>>,
>
    decreases hi - lo, 9int,
{
    match spec_expect_token(toks, lo, hi, Token::Symbol(123)) {
        ParseOut::Parsed(_, np) => spec_parse_body_items(src, toks, np, hi),
        ParseOut::Failed(e) => ParseOut::Failed(e),
    }
}

/// `if (cond) { ... }`, with an optional else branch: after `else`, a
/// single statement is tried first (which lets `else if` chain), and
/// only then a braced body; a missing else branch is an empty one.
pub open spec fn spec_parse_if(src: Seq<u8>, toks: Seq<Pair>, lo: int, hi: int) -> ParseOut<IfS>
    decreases hi - lo, 2int,
{
    match spec_expect_token(toks, lo, hi, Token::If) {
        ParseOut::Parsed(_, a) => match spec_expect_token(toks, a, hi, Token::Symbol(40)) {
            ParseOut::Parsed(_, b) => match spec_parse_sp_expr(src, toks, b, hi) {
                ParseOut::Parsed(cond, c) => if c <= lo || c > hi {
                    ParseOut::Failed(ParseError::UnexpectedEndOfInput)
                } else {
                    match spec_expect_token(toks, c, hi, Token::Symbol(41)) {
                        ParseOut::Parsed(_, d) => match spec_parse_body(src, toks, d, hi) {
                            ParseOut::Parsed(body, e) => match spec_expect_token(
                                toks,
                                e,
                                hi,
                                Token::Else,
                            ) {
                                ParseOut::Parsed(_, f) => if f <= lo || f > hi {
                                    ParseOut::Failed(ParseError::UnexpectedEndOfInput)
                                } else {
                                    match spec_parse_sp_top(src, toks, f, hi) {
                                        ParseOut::Parsed(stmt, g) => ParseOut::Parsed(
                                            IfS {
                                                expr: Box::new(cond),
                                                body: body,
                                                else_branch: seq![stmt],
                                            },
                                            g,
                                        ),
                                        ParseOut::Failed(_) => match spec_parse_body(
                                            src,
                                            toks,
                                            f,
                                            hi,
                                        ) {
                                            ParseOut::Parsed(eb, g) => ParseOut::Parsed(
                                                IfS {
                                                    expr: Box::new(cond),
                                                    body: body,
                                                    else_branch: eb,
                                                },
                                                g,
                                            ),
                                            ParseOut::Failed(e2) => ParseOut::Failed(e2),
                                        },
                                    }
                                },
                                ParseOut::Failed(_) => ParseOut::Parsed(
                                    IfS {
                                        expr: Box::new(cond),
                                        body: body,
                                        else_branch: Seq::empty(),
                                    },
                                    e,
                                ),
                            },
                            ParseOut::Failed(e2) => ParseOut::Failed(e2),
                        },
                        ParseOut::Failed(e2) => ParseOut::Failed(e2),
                    }
                },
                ParseOut::Failed(e2) => ParseOut::Failed(e2),
            },
            ParseOut::Failed(e2) => ParseOut::Failed(e2),
        },
        ParseOut::Failed(e2) => ParseOut::Failed(e2),
    }
}


/// `for (x in iterable) { ... }`.
pub open spec fn spec_parse_for(src: Seq<u8>, toks: Seq<Pair>, lo: int, hi: int) -> ParseOut<ForS>
    decreases hi - lo, 2int,
{
    match spec_expect_token(toks, lo, hi, Token::For) {
        ParseOut::Parsed(_, a) => match spec_expect_token(toks, a, hi, Token::Symbol(40)) {
            ParseOut::Parsed(_, b) => match spec_parse_ident(src, toks, b, hi) {
                ParseOut::Parsed(var, c) => match spec_expect_token(toks, c, hi, Token::In) {
                    ParseOut::Parsed(_, d) => match spec_parse_sp_expr(src, toks, d, hi) {
                        ParseOut::Parsed(iter, e) => if e <= lo || e > hi {
                            ParseOut::Failed(ParseError::UnexpectedEndOfInput)
                        } else {
                            match spec_expect_token(toks, e, hi, Token::Symbol(41)) {
                                ParseOut::Parsed(_, f) => match spec_parse_body(src, toks, f, hi) {
                                    ParseOut::Parsed(body, g) => ParseOut::Parsed(
                                        ForS { var: var, iterable: Box::new(iter), body: body },
                                        g,
                                    ),
                                    ParseOut::Failed(e2) => ParseOut::Failed(e2),
                                },
                                ParseOut::Failed(e2) => ParseOut::Failed(e2),
                            }
                        },
                        ParseOut::Failed(e2) => ParseOut::Failed(e2),
                    },
                    ParseOut::Failed(e2) => ParseOut::Failed(e2),
                },
                ParseOut::Failed(e2) => ParseOut::Failed(e2),
            },
            ParseOut::Failed(e2) => ParseOut::Failed(e2),
        },
        ParseOut::Failed(e2) => ParseOut::Failed(e2),
    }
}


/// `while (cond) { ... }`.
pub open spec fn spec_parse_while(src: Seq<u8>, toks: Seq<Pair>, lo: int, hi: int) -> ParseOut<
    WhileS,
>
    decreases hi - lo, 2int,
{
    match spec_expect_token(toks, lo, hi, Token::While) {
        ParseOut::Parsed(_, a) => match spec_expect_token(toks, a, hi, Token::Symbol(40)) {
            ParseOut::Parsed(_, b) => match spec_parse_sp_expr(src, toks, b, hi) {
                ParseOut::Parsed(cond, c) => if c <= lo || c > hi {
                    ParseOut::Failed(ParseError::UnexpectedEndOfInput)
                } else {
                    match spec_expect_token(toks, c, hi, Token::Symbol(41)) {
                        ParseOut::Parsed(_, d) => match spec_parse_body(src, toks, d, hi) {
                            ParseOut::Parsed(body, e) => ParseOut::Parsed(
                                WhileS { expr: Box::new(cond), body: body },
                                e,
                            ),
                            ParseOut::Failed(e2) => ParseOut::Failed(e2),
                        },
                        ParseOut::Failed(e2) => ParseOut::Failed(e2),
                    }
                },
                ParseOut::Failed(e2) => ParseOut::Failed(e2),
            },
            ParseOut::Failed(e2) => ParseOut::Failed(e2),
        },
        ParseOut::Failed(e2) => ParseOut::Failed(e2),
    }
}


/// A control statement, dispatched on its leading keyword.
pub open spec fn spec_parse_control(src: Seq<u8>, toks: Seq<Pair>, lo: int, hi: int) -> ParseOut<
    ControlExprS,
>
    decreases hi - lo, 3int,
{
    if lo >= hi {
        ParseOut::Failed(ParseError::UnexpectedEndOfInput)
    } else {
        match toks[lo].token {
            Token::If => match spec_parse_if(src, toks, lo, hi) {
                ParseOut::Parsed(e, np) => ParseOut::Parsed(ControlExprS::If(e), np),
                ParseOut::Failed(e) => ParseOut::Failed(e),
            },
            Token::For => match spec_parse_for(src, toks, lo, hi) {
                ParseOut::Parsed(e, np) => ParseOut::Parsed(ControlExprS::For(e), np),
                ParseOut::Failed(e) => ParseOut::Failed(e),
            },
            Token::While => match spec_parse_while(src, toks, lo, hi) {
                ParseOut::Parsed(e, np) => ParseOut::Parsed(ControlExprS::While(e), np),
                ParseOut::Failed(e) => ParseOut::Failed(e),
            },
            Token::Return => match spec_parse_return(src, toks, lo, hi) {
                ParseOut::Parsed(e, np) => ParseOut::Parsed(ControlExprS::Return(e), np),
                ParseOut::Failed(e) => ParseOut::Failed(e),
            },
            _ => ParseOut::Failed(ParseError::WrongExprType(toks[lo])),
        }
    }
}

/// A statement. On an identifier, assignment, call and indexed store are
/// tried in that order; control keywords and `val`/`var` dispatch
/// directly; anything else is no statement.
pub open spec fn spec_parse_top(src: Seq<u8>, toks: Seq<Pair>, lo: int, hi: int) -> ParseOut<
    TopExprS,
>
    decreases hi - lo, 4int,
{
    if lo >= hi {
        ParseOut::Failed(ParseError::UnexpectedEndOfInput)
    } else {
        match toks[lo].token {
            Token::Ident => match spec_parse_assign(src, toks, lo, hi) {
                ParseOut::Parsed(a, np) => ParseOut::Parsed(TopExprS::Assign(a), np),
                ParseOut::Failed(_) => match spec_parse_call(src, toks, lo, hi) {
                    ParseOut::Parsed(c, np) => ParseOut::Parsed(TopExprS::Call(c), np),
                    ParseOut::Failed(_) => match spec_parse_sbi(src, toks, lo, hi) {
                        ParseOut::Parsed(s, np) => ParseOut::Parsed(TopExprS::SetByIndex(s), np),
                        ParseOut::Failed(_) => ParseOut::Failed(ParseError::WrongExprType(toks[lo])),
                    },
                },
            },
            Token::If | Token::For | Token::While | Token::Return => match spec_parse_control(
                src,
                toks,
                lo,
                hi,
            ) {
                ParseOut::Parsed(c, np) => ParseOut::Parsed(TopExprS::ControlExpr(c), np),
                ParseOut::Failed(e) => ParseOut::Failed(e),
            },
            Token::Var | Token::Val => match spec_parse_binding(src, toks, lo, hi) {
                ParseOut::Parsed(b, np) => ParseOut::Parsed(TopExprS::Binding(b), np),
                ParseOut::Failed(e) => ParseOut::Failed(e),
            },
            _ => ParseOut::Failed(ParseError::WrongExprType(toks[lo])),
        }
    }
}

/// An expression: the four levels tried outermost first.
pub open spec fn spec_parse_expr(src: Seq<u8>, toks: Seq<Pair>, lo: int, hi: int) -> ParseOut<
    ExprS,
>
    decreases hi - lo, 5int,
{
    if lo >= hi {
        ParseOut::Failed(ParseError::UnexpectedEndOfInput)
    } else {
        match spec_parse_top(src, toks, lo, hi) {
            ParseOut::Parsed(t, np) => ParseOut::Parsed(ExprS::TopExpr(t), np),
            ParseOut::Failed(_) => match spec_parse_math(src, toks, lo, hi) {
                ParseOut::Parsed(m, np) => ParseOut::Parsed(ExprS::MathExpr(m), np),
                ParseOut::Failed(_) => match spec_parse_cmp(src, toks, lo, hi) {
                    ParseOut::Parsed(c, np) => ParseOut::Parsed(ExprS::ComparisonExpr(c), np),
                    ParseOut::Failed(_) => match spec_parse_short(src, toks, lo, hi) {
                        ParseOut::Parsed(s, np) => ParseOut::Parsed(ExprS::ShortExpr(s), np),
                        ParseOut::Failed(_) => ParseOut::Failed(ParseError::WrongExprType(toks[lo])),
                    },
                },
            },
        }
    }
}

/// A spanned statement.
pub open spec fn spec_parse_sp_top(src: Seq<u8>, toks: Seq<Pair>, lo: int, hi: int) -> ParseOut<
    Spanned<TopExprS>,
>
    decreases hi - lo, 5int,
{
    if lo >= hi {
        ParseOut::Failed(ParseError::UnexpectedEndOfInput)
    } else {
        match spec_parse_top(src, toks, lo, hi) {
            ParseOut::Parsed(t, np) => ParseOut::Parsed(
                Spanned { span: spec_node_span(toks, lo, np, hi), expr: t },
                np,
            ),
            ParseOut::Failed(e) => ParseOut::Failed(e),
        }
    }
}

/// A spanned expression.
pub open spec fn spec_parse_sp_expr(src: Seq<u8>, toks: Seq<Pair>, lo: int, hi: int) -> ParseOut<
    Spanned<ExprS>,
>
    decreases hi - lo, 6int,
{
    if lo >= hi {
        ParseOut::Failed(ParseError::UnexpectedEndOfInput)
    } else {
        match spec_parse_expr(src, toks, lo, hi) {
            ParseOut::Parsed(e, np) => ParseOut::Parsed(
                Spanned { span: spec_node_span(toks, lo, np, hi), expr: e },
                np,
            ),
            ParseOut::Failed(e) => ParseOut::Failed(e),
        }
    }
}

/// The elements of a generic type's parameter list, after the opening
/// angle bracket.
pub open spec fn spec_parse_type_args(src: Seq<u8>, toks: Seq<Pair>, lo: int, hi: int) -> ParseOut<
    Seq<TypeS>,
>
    decreases hi - lo, 8int,
{
    match spec_expect_token(toks, lo, hi, Token::Symbol(62)) {
        ParseOut::Parsed(_, np) => ParseOut::Parsed(Seq::empty(), np),
        ParseOut::Failed(e) => if !(e is UnexpectedToken) {
            ParseOut::Failed(e)
        } else {
            match spec_parse_type(src, toks, lo, hi) {
                ParseOut::Parsed(el, np) => if np <= lo || np > hi {
                    ParseOut::Failed(ParseError::UnexpectedEndOfInput)
                } else {
                    let np2 = match spec_expect_token(toks, np, hi, Token::Symbol(44)) {
                        ParseOut::Parsed(_, q) => q,
                        ParseOut::Failed(_) => np,
                    };
                    if np2 < np || np2 > hi {
                        ParseOut::Failed(ParseError::UnexpectedEndOfInput)
                    } else {
                        match spec_parse_type_args(src, toks, np2, hi) {
                            ParseOut::Parsed(rest, fin) => ParseOut::Parsed(seq![el] + rest, fin),
                            ParseOut::Failed(e2) => ParseOut::Failed(e2),
                        }
                    }
                },
                ParseOut::Failed(e2) => ParseOut::Failed(e2),
            }
        },
    }
}

/// A declared type: a name, generic when `<` follows it.
pub open spec fn spec_parse_type(src: Seq<u8>, toks: Seq<Pair>, lo: int, hi: int) -> ParseOut<
    TypeS,
>
    decreases hi - lo, 2int,
{
    match spec_parse_ident(src, toks, lo, hi) {
        ParseOut::Parsed(name, np) => if np <= lo || np > hi {
            ParseOut::Failed(ParseError::UnexpectedEndOfInput)
        } else {
            match spec_expect_token(toks, np, hi, Token::Symbol(60)) {
                ParseOut::Parsed(_, np2) => match spec_parse_type_args(src, toks, np2, hi) {
                    ParseOut::Parsed(params, np3) => ParseOut::Parsed(TypeS::Generic(name, params), np3),
                    ParseOut::Failed(e) => ParseOut::Failed(e),
                },
                ParseOut::Failed(_) => ParseOut::Parsed(TypeS::Simple(name), np),
            }
        },
        ParseOut::Failed(e) => ParseOut::Failed(e),
    }
}

/// The elements of a function's parameter list, after the opening paren:
/// each is `name : Type`.
pub open spec fn spec_parse_params(src: Seq<u8>, toks: Seq<Pair>, lo: int, hi: int) -> ParseOut<
    Seq<(Seq<u8>, TypeS)>,
>
    decreases hi - lo, 8int,
{
    match spec_expect_token(toks, lo, hi, Token::Symbol(41)) {
        ParseOut::Parsed(_, np) => ParseOut::Parsed(Seq::empty(), np),
        ParseOut::Failed(e) => if !(e is UnexpectedToken) {
            ParseOut::Failed(e)
        } else {
            let el = match spec_parse_ident(src, toks, lo, hi) {
                ParseOut::Parsed(name, a) => match spec_expect_token(toks, a, hi, Token::Symbol(58)) {
                    ParseOut::Parsed(_, b) => match spec_parse_type(src, toks, b, hi) {
                        ParseOut::Parsed(ty, c) => ParseOut::Parsed((name, ty), c),
                        ParseOut::Failed(e2) => ParseOut::Failed(e2),
                    },
                    ParseOut::Failed(e2) => ParseOut::Failed(e2),
                },
                ParseOut::Failed(e2) => ParseOut::Failed(e2),
            };
            match el {
                ParseOut::Parsed(p, np) => if np <= lo || np > hi {
                    ParseOut::Failed(ParseError::UnexpectedEndOfInput)
                } else {
                    let np2 = match spec_expect_token(toks, np, hi, Token::Symbol(44)) {
                        ParseOut::Parsed(_, q) => q,
                        ParseOut::Failed(_) => np,
                    };
                    if np2 < np || np2 > hi {
                        ParseOut::Failed(ParseError::UnexpectedEndOfInput)
                    } else {
                        match spec_parse_params(src, toks, np2, hi) {
                            ParseOut::Parsed(rest, fin) => ParseOut::Parsed(seq![p] + rest, fin),
                            ParseOut::Failed(e2) => ParseOut::Failed(e2),
                        }
                    }
                },
                ParseOut::Failed(e2) => ParseOut::Failed(e2),
            }
        },
    }
}

/// One function declaration: `fun name(params)`, an optional `: Type`,
/// and a braced body.
pub open spec fn spec_parse_fun(src: Seq<u8>, toks: Seq<Pair>, lo: int, hi: int) -> ParseOut<FunS>
    decreases hi - lo, 2int,
{
    match spec_expect_token(toks, lo, hi, Token::Fun) {
        ParseOut::Parsed(_, a) => match spec_parse_ident(src, toks, a, hi) {
            ParseOut::Parsed(name, b) => match spec_expect_token(toks, b, hi, Token::Symbol(40)) {
                ParseOut::Parsed(_, c) => match spec_parse_params(src, toks, c, hi) {
                    ParseOut::Parsed(args, d) => if d <= lo || d > hi {
                        ParseOut::Failed(ParseError::UnexpectedEndOfInput)
                    } else {
                        let rt = match spec_expect_token(toks, d, hi, Token::Symbol(58)) {
                            ParseOut::Parsed(_, e) => match spec_parse_type(src, toks, e, hi) {
                                ParseOut::Parsed(ty, f) => ParseOut::Parsed(Some(ty), f),
                                ParseOut::Failed(e2) => ParseOut::Failed(e2),
                            },
                            ParseOut::Failed(_) => ParseOut::Parsed(None, d),
                        };
                        match rt {
                            ParseOut::Parsed(ret_type, g) => if g < d || g > hi {
                                ParseOut::Failed(ParseError::UnexpectedEndOfInput)
                            } else {
                                match spec_parse_body(src, toks, g, hi) {
                                    ParseOut::Parsed(body, h) => ParseOut::Parsed(
                                        FunS {
                                            name: name,
                                            ret_type: ret_type,
                                            args: args,
                                            body: body,
                                        },
                                        h,
                                    ),
                                    ParseOut::Failed(e2) => ParseOut::Failed(e2),
                                }
                            },
                            ParseOut::Failed(e2) => ParseOut::Failed(e2),
                        }
                    },
                    ParseOut::Failed(e2) => ParseOut::Failed(e2),
                },
                ParseOut::Failed(e2) => ParseOut::Failed(e2),
            },
            ParseOut::Failed(e2) => ParseOut::Failed(e2),
        },
        ParseOut::Failed(e2) => ParseOut::Failed(e2),
    }
}

/// The functions of a whole token stream: leading newlines are skipped
/// before each declaration, and the stream must end after the last one.
pub open spec fn spec_parse_program_items(src: Seq<u8>, toks: Seq<Pair>, lo: int, hi: int) -> ParseOut<
    Seq<FunS>,
>
    decreases hi - lo, 8int,
{
    let p1 = spec_skip_newlines(toks, lo, hi);
    if p1 < lo || p1 > hi {
        ParseOut::Failed(ParseError::UnexpectedEndOfInput)
    } else if p1 >= hi {
        ParseOut::Parsed(Seq::empty(), hi)
    } else {
        match spec_parse_fun(src, toks, p1, hi) {
            ParseOut::Parsed(f, np) => if np <= p1 || np > hi {
                ParseOut::Failed(ParseError::UnexpectedEndOfInput)
            } else {
                match spec_parse_program_items(src, toks, np, hi) {
                    ParseOut::Parsed(rest, fin) => ParseOut::Parsed(seq![f] + rest, fin),
                    ParseOut::Failed(e2) => ParseOut::Failed(e2),
                }
            },
            ParseOut::Failed(e2) => ParseOut::Failed(e2),
        }
    }
}

/// A whole program from a whole token stream.
pub open spec fn spec_parse_program(src: Seq<u8>, toks: Seq<Pair>) -> ParseOut<ProgramS> {
    match spec_parse_program_items(src, toks, 0, toks.len() as int) {
        ParseOut::Parsed(fs, np) => ParseOut::Parsed(ProgramS { functions: fs }, np),
        ParseOut::Failed(e) => ParseOut::Failed(e),
    }
}

} // verus!
