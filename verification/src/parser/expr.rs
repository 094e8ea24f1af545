//! Parsing of expressions: the four levels and their nodes.

use vstd::prelude::*;

use crate::ast::{Add, And, BinS, Binding, BoolNeg, BoxedExpr, Call, ComparisonExpr,
    ComparisonExprS, ControlExpr, ControlExprS, Div, Expr, ExprS, For, GetByIndex, GetByIndexS, If,
    Literal, LiteralS, MathExpr, MathExprS, MoreThan, Mul, Neg, Or, Parens, Range, Return,
    SetByIndex, ShortExpr, ShortExprS, Spanned, Sub, TopExpr, TopExprS, While, Assign, LessThan,
    boxed_view, body_view, args_view, call_view, control_view, cmp_view, expr_view, gbi_view,
    literal_view, math_view, assign_view, short_view, top_view};
use crate::lexer::token::Token;
use crate::lexer::{Pair, Span};
use crate::parser::grammar::{ParseError, ParseOut, spec_char_value, spec_close_paren,
    spec_parse_args, spec_parse_assign, spec_parse_binding, spec_parse_binop,
    spec_parse_body, spec_parse_body_items, spec_parse_call, spec_parse_cmp, spec_parse_control,
    spec_parse_expr, spec_parse_for, spec_parse_gbi, spec_parse_if, spec_parse_literal,
    spec_parse_math, spec_parse_parens, spec_parse_return, spec_parse_sbi, spec_parse_short,
    spec_parse_sp_expr, spec_parse_sp_top, spec_parse_top, spec_parse_unary, spec_parse_while,
    spec_string_value, spec_toplevel_index, spec_unescape};
use crate::parser::{expect_token, expect_symbol, ignore_token, parse_ident, parse_sp_ident};

verus! {

broadcast use vstd::std_specs::vec::group_vec_axioms;

/// The first position in `[lo, hi)` at which `t` stands at paren-nesting
/// depth zero.
pub fn get_toplevel_index_of(toks: &Vec<Pair>, lo: usize, hi: usize, t: Token) -> (r: Option<
    usize,
>)
    requires
        lo <= hi <= toks@.len(),
    ensures
        match r {
            Some(k) => spec_toplevel_index(toks@, lo as int, hi as int, t, 0) == Some(k as int)
                && lo <= k < hi,
            None => spec_toplevel_index(toks@, lo as int, hi as int, t, 0) is None,
        },
{
    let mut j: usize = lo;
    let mut nest: i128 = 0;
    while j < hi
        invariant
            lo <= j <= hi <= toks@.len(),
            -(j as int) <= nest <= j as int,
            spec_toplevel_index(toks@, lo as int, hi as int, t, 0) == spec_toplevel_index(
                toks@,
                j as int,
                hi as int,
                t,
                nest as int,
            ),
        decreases hi - j,
    {
        let tok = toks[j].token;
        if tok == Token::Symbol(40) {
            nest = nest + 1;
        } else if tok == Token::Symbol(41) {
            nest = nest - 1;
        }
        if nest == 0 && tok == t {
            return Some(j);
        }
        j += 1;
    }
    None
}

/// The matching closing paren, scanning with an initial nesting of one.
fn find_close_paren(toks: &Vec<Pair>, lo: usize, hi: usize) -> (r: Option<usize>)
    requires
        lo <= hi <= toks@.len(),
    ensures
        match r {
            Some(k) => spec_close_paren(toks@, lo as int, hi as int, 1) == Some(k as int) && lo <= k
                < hi,
            None => spec_close_paren(toks@, lo as int, hi as int, 1) is None,
        },
{
    let mut j: usize = lo;
    let mut nest: i128 = 1;
    while j < hi
        invariant
            lo <= j <= hi <= toks@.len(),
            -(j as int) - 1 <= nest <= j as int + 1,
            spec_close_paren(toks@, lo as int, hi as int, 1) == spec_close_paren(
                toks@,
                j as int,
                hi as int,
                nest as int,
            ),
        decreases hi - j,
    {
        let tok = toks[j].token;
        if tok == Token::Symbol(41) && nest - 1 == 0 {
            return Some(j);
        }
        if tok == Token::Symbol(40) {
            nest = nest + 1;
        } else if tok == Token::Symbol(41) {
            nest = nest - 1;
        }
        j += 1;
    }
    None
}

/// The byte a character literal's text denotes.
fn char_value(text: &Vec<u8>) -> (r: u8)
    ensures
        r == spec_char_value(text@),
{
    let c = if text.len() >= 2 {
        text[1]
    } else {
        0
    };
    if c == 92 && text.len() >= 3 {
        let e = text[2];
        if e == 116 {
            9
        } else if e == 98 {
            8
        } else if e == 110 {
            10
        } else if e == 114 {
            13
        } else {
            e
        }
    } else {
        c
    }
}

/// The remainder of a string literal's content from `i` on, unescaped.
fn unescape_from(w: &Vec<u8>, i: usize) -> (r: Vec<u8>)
    requires
        i <= w@.len(),
    ensures
        r@ == spec_unescape(w@.skip(i as int)),
    decreases w@.len() - i,
{
    if i >= w.len() {
        Vec::new()
    } else if w[i] == 92 {
        if i + 1 < w.len() {
            let c = w[i + 1];
            let e: u8 = if c == 116 {
                9
            } else if c == 98 {
                8
            } else if c == 110 {
                10
            } else if c == 114 {
                13
            } else {
                c
            };
            let mut rest = unescape_from(w, i + 2);
            proof {
                assert(w@.skip(i as int).skip(2) =~= w@.skip(i + 2));
            }
            rest.insert(0, e);
            proof {
                assert(rest@ =~= seq![e] + spec_unescape(w@.skip(i + 2)));
            }
            rest
        } else {
            proof {
                assert(w@.skip(i as int).len() == 1);
            }
            Vec::new()
        }
    } else {
        let mut rest = unescape_from(w, i + 1);
        proof {
            assert(w@.skip(i as int).skip(1) =~= w@.skip(i + 1));
        }
        let b = w[i];
        rest.insert(0, b);
        proof {
            assert(rest@ =~= seq![b] + spec_unescape(w@.skip(i + 1)));
        }
        rest
    }
}

/// The content a string literal's text denotes.
fn string_value(text: &Vec<u8>) -> (r: Vec<u8>)
    ensures
        r@ == spec_string_value(text@),
{
    if text.len() >= 2 {
        let mut content: Vec<u8> = Vec::new();
        let mut k: usize = 1;
        while k < text.len() - 1
            invariant
                1 <= k <= text@.len() - 1,
                text@.len() >= 2,
                content@ == text@.subrange(1, k as int),
            decreases text@.len() - k,
        {
            content.push(text[k]);
            proof {
                assert(text@.subrange(1, k + 1) =~= text@.subrange(1, k as int).push(
                    text@[k as int],
                ));
            }
            k += 1;
        }
        let r = unescape_from(&content, 0);
        proof {
            assert(content@.skip(0) =~= content@);
        }
        r
    } else {
        Vec::new()
    }
}

impl Literal {
    /// A literal node from a single literal token.
    pub fn try_parse(src: &[u8], toks: &Vec<Pair>, lo: usize, hi: usize) -> (r: Result<
        (Literal, usize),
        ParseError,
    >)
        requires
            lo <= hi <= toks@.len(),
        ensures
            match r {
                Ok((l, np)) => spec_parse_literal(src@, toks@, lo as int, hi as int)
                    == ParseOut::Parsed(literal_view(l), np as int) && np == lo + 1 && lo < hi,
                Err(e) => spec_parse_literal(src@, toks@, lo as int, hi as int) == ParseOut::<
                    LiteralS,
                >::Failed(e),
            },
    {
        if lo >= hi {
            return Err(ParseError::UnexpectedEndOfInput);
        }
        let p = toks[lo];
        match p.token {
            Token::Char => {
                let text = p.str(src);
                Ok((Literal::Char(char_value(&text)), lo + 1))
            },
            Token::Str => {
                let text = p.str(src);
                Ok((Literal::String(string_value(&text)), lo + 1))
            },
            Token::Int(v) => Ok((Literal::Int(v), lo + 1)),
            Token::Bool(b) => Ok((Literal::Bool(b), lo + 1)),
            _ => Err(ParseError::WrongExprType(p)),
        }
    }
}

impl GetByIndex {
    /// `ident [ expr ]`.
    pub fn try_parse(src: &[u8], toks: &Vec<Pair>, lo: usize, hi: usize) -> (r: Result<
        (GetByIndex, usize),
        ParseError,
    >)
        requires
            lo <= hi <= toks@.len(),
        ensures
            match r {
                Ok((g, np)) => spec_parse_gbi(src@, toks@, lo as int, hi as int)
                    == ParseOut::Parsed(gbi_view(g), np as int) && lo < np <= hi,
                Err(e) => spec_parse_gbi(src@, toks@, lo as int, hi as int) == ParseOut::<
                    GetByIndexS,
                >::Failed(e),
            },
        decreases hi - lo, 2int,
    {
        let (id, np) = match parse_sp_ident(src, toks, lo, hi) {
            Ok(v) => v,
            Err(e) => {
                return Err(e);
            },
        };
        let np2 = match expect_symbol(toks, np, hi, 91) {
            Ok(v) => v,
            Err(e) => {
                return Err(e);
            },
        };
        let (ix, np3) = match parse_sp_expr(src, toks, np2, hi) {
            Ok(v) => v,
            Err(e) => {
                return Err(e);
            },
        };
        let np4 = match expect_symbol(toks, np3, hi, 93) {
            Ok(v) => v,
            Err(e) => {
                return Err(e);
            },
        };
        Ok((GetByIndex { ident: id, index: Box::new(ix) }, np4))
    }
}

impl ShortExpr {
    /// The innermost level: literal, indexed read, or identifier.
    pub fn try_parse(src: &[u8], toks: &Vec<Pair>, lo: usize, hi: usize) -> (r: Result<
        (ShortExpr, usize),
        ParseError,
    >)
        requires
            lo <= hi <= toks@.len(),
        ensures
            match r {
                Ok((s, np)) => spec_parse_short(src@, toks@, lo as int, hi as int)
                    == ParseOut::Parsed(short_view(s), np as int) && lo < np <= hi,
                Err(e) => spec_parse_short(src@, toks@, lo as int, hi as int) == ParseOut::<
                    ShortExprS,
                >::Failed(e),
            },
        decreases hi - lo, 3int,
    {
        if lo >= hi {
            return Err(ParseError::UnexpectedEndOfInput);
        }
        match toks[lo].token {
            Token::Char | Token::Str | Token::Int(_) | Token::Bool(_) => {
                match Literal::try_parse(src, toks, lo, hi) {
                    Ok((l, np)) => Ok((ShortExpr::Literal(l), np)),
                    Err(e) => Err(e),
                }
            },
            Token::Ident => {
                match GetByIndex::try_parse(src, toks, lo, hi) {
                    Ok((g, np)) => Ok((ShortExpr::GetByIndex(g), np)),
                    Err(_) => match parse_ident(src, toks, lo, hi) {
                        Ok((id, np)) => Ok((ShortExpr::Ident(id), np)),
                        Err(e) => Err(e),
                    },
                }
            },
            _ => Err(ParseError::WrongExprType(toks[lo])),
        }
    }
}

/// A unary operator: its symbol, then a full expression.
fn parse_unary(src: &[u8], toks: &Vec<Pair>, lo: usize, hi: usize, sym: u8) -> (r: Result<
    (BoxedExpr, usize),
    ParseError,
>)
    requires
        lo <= hi <= toks@.len(),
    ensures
        match r {
            Ok((e, np)) => spec_parse_unary(src@, toks@, lo as int, hi as int, sym)
                == ParseOut::Parsed(boxed_view(e), np as int) && lo < np <= hi,
            Err(e) => spec_parse_unary(src@, toks@, lo as int, hi as int, sym) == ParseOut::<
                Box<Spanned<ExprS>>,
            >::Failed(e),
        },
    decreases hi - lo, 2int,
{
    let np = match expect_symbol(toks, lo, hi, sym) {
        Ok(v) => v,
        Err(e) => {
            return Err(e);
        },
    };
    match parse_sp_expr(src, toks, np, hi) {
        Ok((e, np2)) => Ok((Box::new(e), np2)),
        Err(e) => Err(e),
    }
}

/// A binary operator: split at the operator's first top-level
/// occurrence; the left side must consume its whole window.
fn parse_binop(src: &[u8], toks: &Vec<Pair>, lo: usize, hi: usize, op: Token) -> (r: Result<
    ((BoxedExpr, BoxedExpr), usize),
    ParseError,
>)
    requires
        lo <= hi <= toks@.len(),
    ensures
        match r {
            Ok(((l, rt), np)) => spec_parse_binop(src@, toks@, lo as int, hi as int, op)
                == ParseOut::Parsed(BinS { left: boxed_view(l), right: boxed_view(rt) }, np as int)
                && lo < np <= hi,
            Err(e) => spec_parse_binop(src@, toks@, lo as int, hi as int, op) == ParseOut::<
                BinS,
            >::Failed(e),
        },
    decreases hi - lo, 2int,
{
    let pos = match get_toplevel_index_of(toks, lo, hi, op) {
        Some(v) => v,
        None => {
            return Err(ParseError::UnexpectedEndOfInput);
        },
    };
    let (left, np) = match parse_sp_expr(src, toks, lo, pos) {
        Ok(v) => v,
        Err(e) => {
            return Err(e);
        },
    };
    if np != pos {
        return Err(ParseError::WrongExprType(toks[lo]));
    }
    match parse_sp_expr(src, toks, pos + 1, hi) {
        Ok((right, np2)) => Ok(((Box::new(left), Box::new(right)), np2)),
        Err(e) => Err(e),
    }
}

impl Parens {
    /// A parenthesized group.
    pub fn try_parse(src: &[u8], toks: &Vec<Pair>, lo: usize, hi: usize) -> (r: Result<
        (Parens, usize),
        ParseError,
    >)
        requires
            lo <= hi <= toks@.len(),
        ensures
            match r {
                Ok((p, np)) => spec_parse_parens(src@, toks@, lo as int, hi as int)
                    == ParseOut::Parsed(boxed_view(p.0), np as int) && lo < np <= hi,
                Err(e) => spec_parse_parens(src@, toks@, lo as int, hi as int) == ParseOut::<
                    Box<Spanned<ExprS>>,
                >::Failed(e),
            },
        decreases hi - lo, 2int,
    {
        let np = match expect_symbol(toks, lo, hi, 40) {
            Ok(v) => v,
            Err(e) => {
                return Err(e);
            },
        };
        let k = match find_close_paren(toks, np, hi) {
            Some(v) => v,
            None => {
                return Err(ParseError::UnexpectedEndOfInput);
            },
        };
        match parse_sp_expr(src, toks, np, k) {
            Ok((e, _)) => Ok((Parens(Box::new(e)), k + 1)),
            Err(e) => Err(e),
        }
    }
}

impl MathExpr {
    /// The arithmetic level, tried in declaration order.
    pub fn try_parse(src: &[u8], toks: &Vec<Pair>, lo: usize, hi: usize) -> (r: Result<
        (MathExpr, usize),
        ParseError,
    >)
        requires
            lo <= hi <= toks@.len(),
        ensures
            match r {
                Ok((m, np)) => spec_parse_math(src@, toks@, lo as int, hi as int)
                    == ParseOut::Parsed(math_view(m), np as int) && lo < np <= hi,
                Err(e) => spec_parse_math(src@, toks@, lo as int, hi as int) == ParseOut::<
                    MathExprS,
                >::Failed(e),
            },
        decreases hi - lo, 4int,
    {
        if lo >= hi {
            return Err(ParseError::UnexpectedEndOfInput);
        }
        match parse_unary(src, toks, lo, hi, 45) {
            Ok((e, np)) => {
                return Ok((MathExpr::Neg(Neg(e)), np));
            },
            Err(_) => {},
        }
        match parse_unary(src, toks, lo, hi, 33) {
            Ok((e, np)) => {
                return Ok((MathExpr::BoolNeg(BoolNeg(e)), np));
            },
            Err(_) => {},
        }
        match parse_binop(src, toks, lo, hi, Token::RangeOp) {
            Ok(((l, rt), np)) => {
                return Ok((MathExpr::Range(Range { left: l, right: rt }), np));
            },
            Err(_) => {},
        }
        match parse_binop(src, toks, lo, hi, Token::Symbol(45)) {
            Ok(((l, rt), np)) => {
                return Ok((MathExpr::Sub(Sub { left: l, right: rt }), np));
            },
            Err(_) => {},
        }
        match parse_binop(src, toks, lo, hi, Token::Symbol(43)) {
            Ok(((l, rt), np)) => {
                return Ok((MathExpr::Add(Add { left: l, right: rt }), np));
            },
            Err(_) => {},
        }
        match parse_binop(src, toks, lo, hi, Token::Symbol(42)) {
            Ok(((l, rt), np)) => {
                return Ok((MathExpr::Mul(Mul { left: l, right: rt }), np));
            },
            Err(_) => {},
        }
        match parse_binop(src, toks, lo, hi, Token::Symbol(47)) {
            Ok(((l, rt), np)) => {
                return Ok((MathExpr::Div(Div { left: l, right: rt }), np));
            },
            Err(_) => {},
        }
        match Parens::try_parse(src, toks, lo, hi) {
            Ok((p, np)) => {
                return Ok((MathExpr::Parens(p), np));
            },
            Err(_) => {},
        }
        Err(ParseError::WrongExprType(toks[lo]))
    }
}

impl ComparisonExpr {
    /// The comparison level, tried in declaration order.
    pub fn try_parse(src: &[u8], toks: &Vec<Pair>, lo: usize, hi: usize) -> (r: Result<
        (ComparisonExpr, usize),
        ParseError,
    >)
        requires
            lo <= hi <= toks@.len(),
        ensures
            match r {
                Ok((c, np)) => spec_parse_cmp(src@, toks@, lo as int, hi as int)
                    == ParseOut::Parsed(cmp_view(c), np as int) && lo < np <= hi,
                Err(e) => spec_parse_cmp(src@, toks@, lo as int, hi as int) == ParseOut::<
                    ComparisonExprS,
                >::Failed(e),
            },
        decreases hi - lo, 4int,
    {
        if lo >= hi {
            return Err(ParseError::UnexpectedEndOfInput);
        }
        match parse_binop(src, toks, lo, hi, Token::AndOp) {
            Ok(((l, rt), np)) => {
                return Ok((ComparisonExpr::And(And { left: l, right: rt }), np));
            },
            Err(_) => {},
        }
        match parse_binop(src, toks, lo, hi, Token::OrOp) {
            Ok(((l, rt), np)) => {
                return Ok((ComparisonExpr::Or(Or { left: l, right: rt }), np));
            },
            Err(_) => {},
        }
        match parse_binop(src, toks, lo, hi, Token::Symbol(60)) {
            Ok(((l, rt), np)) => {
                return Ok((ComparisonExpr::LessThan(LessThan { left: l, right: rt }), np));
            },
            Err(_) => {},
        }
        match parse_binop(src, toks, lo, hi, Token::Symbol(62)) {
            Ok(((l, rt), np)) => {
                return Ok((ComparisonExpr::MoreThan(MoreThan { left: l, right: rt }), np));
            },
            Err(_) => {},
        }
        Err(ParseError::WrongExprType(toks[lo]))
    }
}

/// A spanned expression.
pub fn parse_sp_expr(src: &[u8], toks: &Vec<Pair>, lo: usize, hi: usize) -> (r: Result<
    (Spanned<Expr>, usize),
    ParseError,
>)
    requires
        lo <= hi <= toks@.len(),
    ensures
        match r {
            Ok((se, np)) => spec_parse_sp_expr(src@, toks@, lo as int, hi as int)
                == ParseOut::Parsed(
                Spanned { span: se.span, expr: expr_view(se.expr) },
                np as int,
            ) && lo < np <= hi,
            Err(e) => spec_parse_sp_expr(src@, toks@, lo as int, hi as int) == ParseOut::<
                Spanned<ExprS>,
            >::Failed(e),
        },
    decreases hi - lo, 6int,
{
    if lo >= hi {
        return Err(ParseError::UnexpectedEndOfInput);
    }
    let span_lo = toks[lo].span.lo;
    match Expr::try_parse(src, toks, lo, hi) {
        Ok((e, np)) => {
            let span_hi = if np < hi {
                toks[np].span.lo
            } else {
                span_lo
            };
            Ok((Spanned { span: Span { lo: span_lo, hi: span_hi }, expr: e }, np))
        },
        Err(e) => Err(e),
    }
}

impl Expr {
    /// An expression: the four levels tried outermost first.
    pub fn try_parse(src: &[u8], toks: &Vec<Pair>, lo: usize, hi: usize) -> (r: Result<
        (Expr, usize),
        ParseError,
    >)
        requires
            lo <= hi <= toks@.len(),
        ensures
            match r {
                Ok((e, np)) => spec_parse_expr(src@, toks@, lo as int, hi as int)
                    == ParseOut::Parsed(expr_view(e), np as int) && lo < np <= hi,
                Err(e) => spec_parse_expr(src@, toks@, lo as int, hi as int) == ParseOut::<
                    ExprS,
                >::Failed(e),
            },
        decreases hi - lo, 5int,
    {
        if lo >= hi {
            return Err(ParseError::UnexpectedEndOfInput);
        }
        match TopExpr::try_parse(src, toks, lo, hi) {
            Ok((t, np)) => {
                return Ok((Expr::TopExpr(t), np));
            },
            Err(_) => {},
        }
        match MathExpr::try_parse(src, toks, lo, hi) {
            Ok((m, np)) => {
                return Ok((Expr::MathExpr(m), np));
            },
            Err(_) => {},
        }
        match ComparisonExpr::try_parse(src, toks, lo, hi) {
            Ok((c, np)) => {
                return Ok((Expr::ComparisonExpr(c), np));
            },
            Err(_) => {},
        }
        match ShortExpr::try_parse(src, toks, lo, hi) {
            Ok((s, np)) => {
                return Ok((Expr::ShortExpr(s), np));
            },
            Err(_) => {},
        }
        Err(ParseError::WrongExprType(toks[lo]))
    }
}

/// A spanned statement.
pub fn parse_sp_top(src: &[u8], toks: &Vec<Pair>, lo: usize, hi: usize) -> (r: Result<
    (Spanned<TopExpr>, usize),
    ParseError,
>)
    requires
        lo <= hi <= toks@.len(),
    ensures
        match r {
            Ok((st, np)) => spec_parse_sp_top(src@, toks@, lo as int, hi as int)
                == ParseOut::Parsed(
                Spanned { span: st.span, expr: top_view(st.expr) },
                np as int,
            ) && lo < np <= hi,
            Err(e) => spec_parse_sp_top(src@, toks@, lo as int, hi as int) == ParseOut::<
                Spanned<TopExprS>,
            >::Failed(e),
        },
    decreases hi - lo, 5int,
{
    if lo >= hi {
        return Err(ParseError::UnexpectedEndOfInput);
    }
    let span_lo = toks[lo].span.lo;
    match TopExpr::try_parse(src, toks, lo, hi) {
        Ok((t, np)) => {
            let span_hi = if np < hi {
                toks[np].span.lo
            } else {
                span_lo
            };
            Ok((Spanned { span: Span { lo: span_lo, hi: span_hi }, expr: t }, np))
        },
        Err(e) => Err(e),
    }
}

impl TopExpr {
    /// A statement, dispatched on its leading token.
    pub fn try_parse(src: &[u8], toks: &Vec<Pair>, lo: usize, hi: usize) -> (r: Result<
        (TopExpr, usize),
        ParseError,
    >)
        requires
            lo <= hi <= toks@.len(),
        ensures
            match r {
                Ok((t, np)) => spec_parse_top(src@, toks@, lo as int, hi as int)
                    == ParseOut::Parsed(top_view(t), np as int) && lo < np <= hi,
                Err(e) => spec_parse_top(src@, toks@, lo as int, hi as int) == ParseOut::<
                    TopExprS,
                >::Failed(e),
            },
        decreases hi - lo, 4int,
    {
        if lo >= hi {
            return Err(ParseError::UnexpectedEndOfInput);
        }
        match toks[lo].token {
            Token::Ident => {
                match Assign::try_parse(src, toks, lo, hi) {
                    Ok((a, np)) => {
                        return Ok((TopExpr::Assign(a), np));
                    },
                    Err(_) => {},
                }
                match Call::try_parse(src, toks, lo, hi) {
                    Ok((c, np)) => {
                        return Ok((TopExpr::Call(c), np));
                    },
                    Err(_) => {},
                }
                match SetByIndex::try_parse(src, toks, lo, hi) {
                    Ok((sb, np)) => {
                        return Ok((TopExpr::SetByIndex(sb), np));
                    },
                    Err(_) => {},
                }
                Err(ParseError::WrongExprType(toks[lo]))
            },
            Token::If | Token::For | Token::While | Token::Return => {
                match ControlExpr::try_parse(src, toks, lo, hi) {
                    Ok((c, np)) => Ok((TopExpr::ControlExpr(c), np)),
                    Err(e) => Err(e),
                }
            },
            Token::Var | Token::Val => {
                match Binding::try_parse(src, toks, lo, hi) {
                    Ok((b, np)) => Ok((TopExpr::Binding(b), np)),
                    Err(e) => Err(e),
                }
            },
            _ => Err(ParseError::WrongExprType(toks[lo])),
        }
    }
}

impl Assign {
    /// `x = expr`.
    pub fn try_parse(src: &[u8], toks: &Vec<Pair>, lo: usize, hi: usize) -> (r: Result<
        (Assign, usize),
        ParseError,
    >)
        requires
            lo <= hi <= toks@.len(),
        ensures
            match r {
                Ok((a, np)) => spec_parse_assign(src@, toks@, lo as int, hi as int)
                    == ParseOut::Parsed(assign_view(a), np as int) && lo < np <= hi,
                Err(e) => spec_parse_assign(src@, toks@, lo as int, hi as int) == ParseOut::<
                    crate::ast::AssignS,
                >::Failed(e),
            },
        decreases hi - lo, 3int,
    {
        let (name, np) = match parse_sp_ident(src, toks, lo, hi) {
            Ok(v) => v,
            Err(e) => {
                return Err(e);
            },
        };
        let np2 = match expect_symbol(toks, np, hi, 61) {
            Ok(v) => v,
            Err(e) => {
                return Err(e);
            },
        };
        match parse_sp_expr(src, toks, np2, hi) {
            Ok((e, np3)) => Ok((Assign { name, expr: Box::new(e) }, np3)),
            Err(e) => Err(e),
        }
    }
}

/// The argument list of a call, after the opening paren: the closing
/// paren ends the list; after an element a comma may stand, and a
/// missing one is tolerated.
pub fn expect_sequence(src: &[u8], toks: &Vec<Pair>, lo: usize, hi: usize) -> (r: Result<
    (Vec<Spanned<Expr>>, usize),
    ParseError,
>)
    requires
        lo <= hi <= toks@.len(),
    ensures
        match r {
            Ok((es, np)) => spec_parse_args(src@, toks@, lo as int, hi as int) == ParseOut::Parsed(
                args_view(es@),
                np as int,
            ) && lo < np <= hi,
            Err(e) => spec_parse_args(src@, toks@, lo as int, hi as int) == ParseOut::<
                Seq<Spanned<ExprS>>,
            >::Failed(e),
        },
    decreases hi - lo, 8int,
{
    match expect_token(toks, lo, hi, Token::Symbol(41)) {
        Ok((_, np)) => {
            proof {
                assert(args_view(Seq::<Spanned<Expr>>::empty()) =~= Seq::<Spanned<ExprS>>::empty());
            }
            return Ok((Vec::new(), np));
        },
        Err(e) => {
            if !(matches!(e, ParseError::UnexpectedToken(_, _))) {
                return Err(e);
            }
        },
    }
    let (el, np) = match parse_sp_expr(src, toks, lo, hi) {
        Ok(v) => v,
        Err(e) => {
            return Err(e);
        },
    };
    let np2 = match expect_token(toks, np, hi, Token::Symbol(44)) {
        Ok((_, q)) => q,
        Err(_) => np,
    };
    match expect_sequence(src, toks, np2, hi) {
        Ok((rest, fin)) => {
            let ghost rest_view = args_view(rest@);
            let ghost ev = Spanned { span: el.span, expr: expr_view(el.expr) };
            let mut out = rest;
            out.insert(0, el);
            proof {
                assert(out@.drop_first() =~= rest@);
                assert(args_view(out@) =~= seq![ev] + rest_view);
            }
            Ok((out, fin))
        },
        Err(e2) => Err(e2),
    }
}

impl Call {
    /// `f(args)`.
    pub fn try_parse(src: &[u8], toks: &Vec<Pair>, lo: usize, hi: usize) -> (r: Result<
        (Call, usize),
        ParseError,
    >)
        requires
            lo <= hi <= toks@.len(),
        ensures
            match r {
                Ok((c, np)) => spec_parse_call(src@, toks@, lo as int, hi as int)
                    == ParseOut::Parsed(call_view(c), np as int) && lo < np <= hi,
                Err(e) => spec_parse_call(src@, toks@, lo as int, hi as int) == ParseOut::<
                    crate::ast::CallS,
                >::Failed(e),
            },
        decreases hi - lo, 3int,
    {
        let (name, np) = match parse_sp_ident(src, toks, lo, hi) {
            Ok(v) => v,
            Err(e) => {
                return Err(e);
            },
        };
        let np2 = match expect_symbol(toks, np, hi, 40) {
            Ok(v) => v,
            Err(e) => {
                return Err(e);
            },
        };
        match expect_sequence(src, toks, np2, hi) {
            Ok((args, np3)) => Ok((Call { name, args }, np3)),
            Err(e) => Err(e),
        }
    }
}

impl SetByIndex {
    /// `a[i] = expr`.
    pub fn try_parse(src: &[u8], toks: &Vec<Pair>, lo: usize, hi: usize) -> (r: Result<
        (SetByIndex, usize),
        ParseError,
    >)
        requires
            lo <= hi <= toks@.len(),
        ensures
            match r {
                Ok((sb, np)) => spec_parse_sbi(src@, toks@, lo as int, hi as int)
                    == ParseOut::Parsed(
                    crate::ast::SetByIndexS {
                        get_by_index: gbi_view(sb.get_by_index),
                        expr: boxed_view(sb.expr),
                    },
                    np as int,
                ) && lo < np <= hi,
                Err(e) => spec_parse_sbi(src@, toks@, lo as int, hi as int) == ParseOut::<
                    crate::ast::SetByIndexS,
                >::Failed(e),
            },
        decreases hi - lo, 3int,
    {
        let (g, np) = match GetByIndex::try_parse(src, toks, lo, hi) {
            Ok(v) => v,
            Err(e) => {
                return Err(e);
            },
        };
        let np2 = match expect_symbol(toks, np, hi, 61) {
            Ok(v) => v,
            Err(e) => {
                return Err(e);
            },
        };
        match parse_sp_expr(src, toks, np2, hi) {
            Ok((e, np3)) => Ok((SetByIndex { get_by_index: g, expr: Box::new(e) }, np3)),
            Err(e) => Err(e),
        }
    }
}

impl Binding {
    /// `val x = e` or `var x = e`.
    pub fn try_parse(src: &[u8], toks: &Vec<Pair>, lo: usize, hi: usize) -> (r: Result<
        (Binding, usize),
        ParseError,
    >)
        requires
            lo <= hi <= toks@.len(),
        ensures
            match r {
                Ok((b, np)) => spec_parse_binding(src@, toks@, lo as int, hi as int)
                    == ParseOut::Parsed(
                    crate::ast::BindingS { is_mut: b.is_mut, set: assign_view(b.set) },
                    np as int,
                ) && lo < np <= hi,
                Err(e) => spec_parse_binding(src@, toks@, lo as int, hi as int) == ParseOut::<
                    crate::ast::BindingS,
                >::Failed(e),
            },
        decreases hi - lo, 3int,
    {
        let (is_mut, np): (bool, usize) = match expect_token(toks, lo, hi, Token::Val) {
            Ok((_, np)) => (false, np),
            Err(_) => match expect_token(toks, lo, hi, Token::Var) {
                Ok((_, np)) => (true, np),
                Err(_) => {
                    if hi - lo <= 1 {
                        return Err(ParseError::UnexpectedEndOfInput);
                    }
                    return Err(ParseError::WrongExprType(toks[lo + 1]));
                },
            },
        };
        match Assign::try_parse(src, toks, np, hi) {
            Ok((a, np2)) => Ok((Binding { is_mut, set: a }, np2)),
            Err(e) => Err(e),
        }
    }
}

impl Return {
    /// `return`, with an expression when one parses after it.
    pub fn try_parse(src: &[u8], toks: &Vec<Pair>, lo: usize, hi: usize) -> (r: Result<
        (Return, usize),
        ParseError,
    >)
        requires
            lo <= hi <= toks@.len(),
        ensures
            match r {
                Ok((ret, np)) => spec_parse_return(src@, toks@, lo as int, hi as int)
                    == ParseOut::Parsed(
                    crate::ast::ReturnS(
                        match ret.0 {
                            Some(b) => Some(boxed_view(b)),
                            None => None,
                        },
                    ),
                    np as int,
                ) && lo < np <= hi,
                Err(e) => spec_parse_return(src@, toks@, lo as int, hi as int) == ParseOut::<
                    crate::ast::ReturnS,
                >::Failed(e),
            },
        decreases hi - lo, 2int,
    {
        let np = match expect_token(toks, lo, hi, Token::Return) {
            Ok((_, np)) => np,
            Err(e) => {
                return Err(e);
            },
        };
        match parse_sp_expr(src, toks, np, hi) {
            Ok((e, np2)) => Ok((Return(Some(Box::new(e))), np2)),
            Err(_) => Ok((Return(None), np)),
        }
    }
}

/// The statements of a `{ ... }` body, after the opening brace.
fn parse_body_items(src: &[u8], toks: &Vec<Pair>, lo: usize, hi: usize) -> (r: Result<
    (Vec<Spanned<TopExpr>>, usize),
    ParseError,
>)
    requires
        lo <= hi <= toks@.len(),
    ensures
        match r {
            Ok((b, np)) => spec_parse_body_items(src@, toks@, lo as int, hi as int)
                == ParseOut::Parsed(body_view(b@), np as int) && lo < np <= hi,
            Err(e) => spec_parse_body_items(src@, toks@, lo as int, hi as int) == ParseOut::<
                Seq<Spanned<TopExprS>>,
            >::Failed(e),
        },
    decreases hi - lo, 8int,
{
    let p1 = ignore_token(toks, lo, hi, Token::NewLine);
    match expect_token(toks, p1, hi, Token::Symbol(125)) {
        Ok((_, np)) => {
            proof {
                assert(body_view(Seq::<Spanned<TopExpr>>::empty()) =~= Seq::<
                    Spanned<TopExprS>,
                >::empty());
            }
            return Ok((Vec::new(), np));
        },
        Err(e) => {
            if !(matches!(e, ParseError::UnexpectedToken(_, _))) {
                return Err(e);
            }
        },
    }
    let (el, np) = match parse_sp_top(src, toks, p1, hi) {
        Ok(v) => v,
        Err(e2) => {
            return Err(e2);
        },
    };
    match parse_body_items(src, toks, np, hi) {
        Ok((rest, fin)) => {
            let ghost rest_view = body_view(rest@);
            let ghost ev = Spanned { span: el.span, expr: top_view(el.expr) };
            let mut out = rest;
            out.insert(0, el);
            proof {
                assert(out@.drop_first() =~= rest@);
                assert(body_view(out@) =~= seq![ev] + rest_view);
            }
            Ok((out, fin))
        },
        Err(e2) => Err(e2),
    }
}

/// A `{ ... }` body: newline-tolerant statements up to the closing
/// brace.
pub fn expect_body(src: &[u8], toks: &Vec<Pair>, lo: usize, hi: usize) -> (r: Result<
    (Vec<Spanned<TopExpr>>, usize),
    ParseError,
>)
    requires
        lo <= hi <= toks@.len(),
    ensures
        match r {
            Ok((b, np)) => spec_parse_body(src@, toks@, lo as int, hi as int) == ParseOut::Parsed(
                body_view(b@),
                np as int,
            ) && lo < np <= hi,
            Err(e) => spec_parse_body(src@, toks@, lo as int, hi as int) == ParseOut::<
                Seq<Spanned<TopExprS>>,
            >::Failed(e),
        },
    decreases hi - lo, 9int,
{
    let np = match expect_symbol(toks, lo, hi, 123) {
        Ok(v) => v,
        Err(e) => {
            return Err(e);
        },
    };
    parse_body_items(src, toks, np, hi)
}

impl If {
    /// `if (cond) { ... }`, with an optional else branch.
    pub fn try_parse(src: &[u8], toks: &Vec<Pair>, lo: usize, hi: usize) -> (r: Result<
        (If, usize),
        ParseError,
    >)
        requires
            lo <= hi <= toks@.len(),
        ensures
            match r {
                Ok((i, np)) => spec_parse_if(src@, toks@, lo as int, hi as int)
                    == ParseOut::Parsed(
                    crate::ast::IfS {
                        expr: boxed_view(i.expr),
                        body: body_view(i.body@),
                        else_branch: body_view(i.else_branch@),
                    },
                    np as int,
                ) && lo < np <= hi,
                Err(e) => spec_parse_if(src@, toks@, lo as int, hi as int) == ParseOut::<
                    crate::ast::IfS,
                >::Failed(e),
            },
        decreases hi - lo, 2int,
    {
        let a = match expect_token(toks, lo, hi, Token::If) {
            Ok((_, a)) => a,
            Err(e) => {
                return Err(e);
            },
        };
        let b = match expect_symbol(toks, a, hi, 40) {
            Ok(v) => v,
            Err(e) => {
                return Err(e);
            },
        };
        let (cond, c) = match parse_sp_expr(src, toks, b, hi) {
            Ok(v) => v,
            Err(e) => {
                return Err(e);
            },
        };
        let d = match expect_symbol(toks, c, hi, 41) {
            Ok(v) => v,
            Err(e) => {
                return Err(e);
            },
        };
        let (body, e) = match expect_body(src, toks, d, hi) {
            Ok(v) => v,
            Err(e2) => {
                return Err(e2);
            },
        };
        let f = match expect_token(toks, e, hi, Token::Else) {
            Ok((_, f)) => f,
            Err(_) => {
                return Ok((If { expr: Box::new(cond), body, else_branch: Vec::new() }, e));
            },
        };
        match parse_sp_top(src, toks, f, hi) {
            Ok((stmt, g)) => {
                let ghost sv = Spanned { span: stmt.span, expr: top_view(stmt.expr) };
                let mut eb: Vec<Spanned<TopExpr>> = Vec::new();
                eb.push(stmt);
                proof {
                    assert(eb@.drop_first() =~= Seq::<Spanned<TopExpr>>::empty());
                    assert(body_view(Seq::<Spanned<TopExpr>>::empty()) =~= Seq::<
                        Spanned<TopExprS>,
                    >::empty());
                    assert(eb@.first() == stmt);
                    assert(body_view(eb@) =~= seq![sv]);
                }
                Ok((If { expr: Box::new(cond), body, else_branch: eb }, g))
            },
            Err(_) => {
                match expect_body(src, toks, f, hi) {
                    Ok((eb, g)) => Ok((If { expr: Box::new(cond), body, else_branch: eb }, g)),
                    Err(e2) => Err(e2),
                }
            },
        }
    }
}

impl For {
    /// `for (x in iterable) { ... }`.
    pub fn try_parse(src: &[u8], toks: &Vec<Pair>, lo: usize, hi: usize) -> (r: Result<
        (For, usize),
        ParseError,
    >)
        requires
            lo <= hi <= toks@.len(),
        ensures
            match r {
                Ok((fr, np)) => spec_parse_for(src@, toks@, lo as int, hi as int)
                    == ParseOut::Parsed(
                    crate::ast::ForS {
                        var: fr.var.0@,
                        iterable: boxed_view(fr.iterable),
                        body: body_view(fr.body@),
                    },
                    np as int,
                ) && lo < np <= hi,
                Err(e) => spec_parse_for(src@, toks@, lo as int, hi as int) == ParseOut::<
                    crate::ast::ForS,
                >::Failed(e),
            },
        decreases hi - lo, 2int,
    {
        let a = match expect_token(toks, lo, hi, Token::For) {
            Ok((_, a)) => a,
            Err(e) => {
                return Err(e);
            },
        };
        let b = match expect_symbol(toks, a, hi, 40) {
            Ok(v) => v,
            Err(e) => {
                return Err(e);
            },
        };
        let (var, c) = match parse_ident(src, toks, b, hi) {
            Ok(v) => v,
            Err(e) => {
                return Err(e);
            },
        };
        let d = match expect_token(toks, c, hi, Token::In) {
            Ok((_, d)) => d,
            Err(e) => {
                return Err(e);
            },
        };
        let (iter, e) = match parse_sp_expr(src, toks, d, hi) {
            Ok(v) => v,
            Err(e2) => {
                return Err(e2);
            },
        };
        let f = match expect_symbol(toks, e, hi, 41) {
            Ok(v) => v,
            Err(e2) => {
                return Err(e2);
            },
        };
        match expect_body(src, toks, f, hi) {
            Ok((body, g)) => Ok((For { var, iterable: Box::new(iter), body }, g)),
            Err(e2) => Err(e2),
        }
    }
}

impl While {
    /// `while (cond) { ... }`.
    pub fn try_parse(src: &[u8], toks: &Vec<Pair>, lo: usize, hi: usize) -> (r: Result<
        (While, usize),
        ParseError,
    >)
        requires
            lo <= hi <= toks@.len(),
        ensures
            match r {
                Ok((w, np)) => spec_parse_while(src@, toks@, lo as int, hi as int)
                    == ParseOut::Parsed(
                    crate::ast::WhileS { expr: boxed_view(w.expr), body: body_view(w.body@) },
                    np as int,
                ) && lo < np <= hi,
                Err(e) => spec_parse_while(src@, toks@, lo as int, hi as int) == ParseOut::<
                    crate::ast::WhileS,
                >::Failed(e),
            },
        decreases hi - lo, 2int,
    {
        let a = match expect_token(toks, lo, hi, Token::While) {
            Ok((_, a)) => a,
            Err(e) => {
                return Err(e);
            },
        };
        let b = match expect_symbol(toks, a, hi, 40) {
            Ok(v) => v,
            Err(e) => {
                return Err(e);
            },
        };
        let (cond, c) = match parse_sp_expr(src, toks, b, hi) {
            Ok(v) => v,
            Err(e) => {
                return Err(e);
            },
        };
        let d = match expect_symbol(toks, c, hi, 41) {
            Ok(v) => v,
            Err(e) => {
                return Err(e);
            },
        };
        match expect_body(src, toks, d, hi) {
            Ok((body, e)) => Ok((While { expr: Box::new(cond), body }, e)),
            Err(e2) => Err(e2),
        }
    }
}

impl ControlExpr {
    /// A control statement, dispatched on its leading keyword.
    pub fn try_parse(src: &[u8], toks: &Vec<Pair>, lo: usize, hi: usize) -> (r: Result<
        (ControlExpr, usize),
        ParseError,
    >)
        requires
            lo <= hi <= toks@.len(),
        ensures
            match r {
                Ok((c, np)) => spec_parse_control(src@, toks@, lo as int, hi as int)
                    == ParseOut::Parsed(control_view(c), np as int) && lo < np <= hi,
                Err(e) => spec_parse_control(src@, toks@, lo as int, hi as int) == ParseOut::<
                    ControlExprS,
                >::Failed(e),
            },
        decreases hi - lo, 3int,
    {
        if lo >= hi {
            return Err(ParseError::UnexpectedEndOfInput);
        }
        match toks[lo].token {
            Token::If => match If::try_parse(src, toks, lo, hi) {
                Ok((e, np)) => Ok((ControlExpr::If(e), np)),
                Err(e) => Err(e),
            },
            Token::For => match For::try_parse(src, toks, lo, hi) {
                Ok((e, np)) => Ok((ControlExpr::For(e), np)),
                Err(e) => Err(e),
            },
            Token::While => match While::try_parse(src, toks, lo, hi) {
                Ok((e, np)) => Ok((ControlExpr::While(e), np)),
                Err(e) => Err(e),
            },
            Token::Return => match Return::try_parse(src, toks, lo, hi) {
                Ok((e, np)) => Ok((ControlExpr::Return(e), np)),
                Err(e) => Err(e),
            },
            _ => Err(ParseError::WrongExprType(toks[lo])),
        }
    }
}

} // verus!
