//! Parser behaviour: node shapes, precedence, and whole programs.

use kotlite::ast::{
    ComparisonExpr, ControlExpr, Expr, Fun, GetByIndex, Ident, Literal, MathExpr, Program,
    ShortExpr, Spanned, TopExpr, Type,
};
use kotlite::lexer::{tokenize, Pair};
use kotlite::parser;

const HELLO_KT: &str = "fun main() {\n    println(\"Hello, World!\")\n}\n";

const ARRAYS_KT: &str = "fun main() {\n    var numbers = arrayOf(1, 2, 3, 4)\n    var total = 0\n    for (n in numbers) {\n        total = total + n\n    }\n    println(\"total: \" + total)\n}\n";

const FACTORIAL_KT: &str = "fun factorial(n: Int): Int {\n    if (n < 2) {\n        return 1\n    }\n    return n * factorial(n - 1)\n}\n\nfun main() {\n    println(factorial(10))\n}\n";

const SORT_KT: &str = "fun sort(values: Array<Int>) {\n    val count = 4\n    var i = 0\n    while (i < count) {\n        var j = 0\n        while (j < (count - 1)) {\n            if (values[j + 1] < values[j]) {\n                val tmp = values[j]\n                values[j] = values[j + 1]\n                values[j + 1] = tmp\n            }\n            j = j + 1\n        }\n        i = i + 1\n    }\n}\n\nfun main() {\n    var values = arrayOf(3, 1, 4, 2)\n    sort(values)\n    var text = \"\"\n    for (v in values) {\n        text = text + v + \" \"\n    }\n    println(text)\n}\n";

fn lex(source: &str) -> (Vec<u8>, Vec<Pair>) {
    let bytes = source.as_bytes().to_vec();
    let toks = tokenize(&bytes);
    (bytes, toks)
}

fn make_expr(source: &str) -> Expr {
    let (b, t) = lex(source);
    let (e, np) = Expr::try_parse(&b, &t, 0, t.len()).expect("expression should parse");
    assert_eq!(np, t.len(), "source is not fully parsed");
    e
}

fn make_top(source: &str) -> TopExpr {
    let (b, t) = lex(source);
    let (e, np) = TopExpr::try_parse(&b, &t, 0, t.len()).expect("statement should parse");
    assert_eq!(np, t.len(), "source is not fully parsed");
    e
}

fn make_control(source: &str) -> ControlExpr {
    let (b, t) = lex(source);
    let (e, np) = ControlExpr::try_parse(&b, &t, 0, t.len()).expect("control should parse");
    assert_eq!(np, t.len(), "source is not fully parsed");
    e
}

fn make_short(source: &str) -> ShortExpr {
    let (b, t) = lex(source);
    let (e, np) = ShortExpr::try_parse(&b, &t, 0, t.len()).expect("short expr should parse");
    assert_eq!(np, t.len(), "source is not fully parsed");
    e
}

fn make_type(source: &str) -> Type {
    let (b, t) = lex(source);
    let (e, np) = parser::parse_type(&b, &t, 0, t.len()).expect("type should parse");
    assert_eq!(np, t.len(), "source is not fully parsed");
    e
}

fn make_fun(source: &str) -> Fun {
    let (b, t) = lex(source);
    let (e, np) = Fun::try_parse(&b, &t, 0, t.len()).expect("function should parse");
    assert_eq!(np, t.len(), "source is not fully parsed");
    e
}

fn make_program(source: &str) -> Program {
    let (b, t) = lex(source);
    let (p, np) = Program::try_parse(&b, &t).expect("program should parse");
    assert_eq!(np, t.len(), "source is not fully parsed");
    p
}

fn ident_text(id: &Ident) -> &[u8] {
    &id.0
}

/// Evaluates a pure arithmetic tree structurally.
fn eval_expr(expr: &Expr) -> i32 {
    match expr {
        Expr::MathExpr(math_expr) => match math_expr {
            MathExpr::Parens(p) => eval_expr(&p.0.expr),
            MathExpr::Mul(m) => eval_expr(&m.left.expr) * eval_expr(&m.right.expr),
            MathExpr::Div(d) => eval_expr(&d.left.expr) / eval_expr(&d.right.expr),
            MathExpr::Add(a) => eval_expr(&a.left.expr) + eval_expr(&a.right.expr),
            MathExpr::Sub(s) => eval_expr(&s.left.expr) - eval_expr(&s.right.expr),
            _ => panic!("unexpected math node"),
        },
        Expr::ShortExpr(ShortExpr::Literal(Literal::Int(int))) => *int,
        _ => panic!("unexpected node"),
    }
}

#[test]
fn ret_expr() {
    let c = make_control("return fn(value)");
    assert!(matches!(c, ControlExpr::Return(_)));
}

#[test]
fn if_expr() {
    let c = make_control(
        "if (value) {
                return kek
            }",
    );
    match c {
        ControlExpr::If(i) => {
            assert_eq!(i.body.len(), 1);
            assert_eq!(i.else_branch.len(), 0);
        },
        _ => panic!("expected an if"),
    }
}

#[test]
fn if_else() {
    let c = make_control(
        r#"if (value) {
                return kek
            } else if (kek) {
                println("kek")
            } else {
                return lol
            }"#,
    );
    match c {
        ControlExpr::If(i) => {
            assert_eq!(i.body.len(), 1);
            // the else branch holds the chained if as its single statement
            assert_eq!(i.else_branch.len(), 1);
            match &i.else_branch[0].expr {
                TopExpr::ControlExpr(ControlExpr::If(inner)) => {
                    assert_eq!(inner.body.len(), 1);
                    assert_eq!(inner.else_branch.len(), 1);
                },
                _ => panic!("expected a chained if"),
            }
        },
        _ => panic!("expected an if"),
    }
}

#[test]
fn while_loop() {
    let c = make_control(
        r#"while (expr) {
                a = b
                b = a
            }"#,
    );
    match c {
        ControlExpr::While(w) => assert_eq!(w.body.len(), 2),
        _ => panic!("expected a while"),
    }
}

#[test]
fn for_loop() {
    let c = make_control(
        r#"for (item in collection) {
                sum = sum + item
            }"#,
    );
    match c {
        ControlExpr::For(f) => {
            assert_eq!(ident_text(&f.var), b"item");
            assert_eq!(f.body.len(), 1);
        },
        _ => panic!("expected a for"),
    }
}

#[test]
fn for_range() {
    let c = make_control(
        r#"for (num in 0..(n + 3)) {
                sum = sum + num
            }"#,
    );
    match c {
        ControlExpr::For(f) => {
            assert!(matches!(f.iterable.expr, Expr::MathExpr(MathExpr::Range(_))));
        },
        _ => panic!("expected a for"),
    }
}

#[test]
fn simple() {
    assert_eq!(eval_expr(&make_expr("35 + 142")), 35 + 142);
    assert_eq!(eval_expr(&make_expr("35 * 142")), 35 * 142);
    assert_eq!(eval_expr(&make_expr("35 / 142")), 35 / 142);
    assert_eq!(eval_expr(&make_expr("35 - 142")), 35 - 142);
}

#[test]
fn harder() {
    assert_eq!(eval_expr(&make_expr("((4 + 2) + 3)")), (4 + 2) + 3);
    assert_eq!(
        eval_expr(&make_expr("(4 / 2 - 4) * ((4 + 2) + 3)")),
        (4 / 2 - 4) * ((4 + 2) + 3)
    );
}

#[test]
fn mul_add() {
    assert_eq!(eval_expr(&make_expr("5 * 3 + 4")), 5 * 3 + 4);
}

#[test]
fn add_mul() {
    assert_eq!(eval_expr(&make_expr("5 + 3 * 4")), 5 + 3 * 4);
    // the tree associates as 5 + (3 * 4), not (5 + 3) * 4
    match make_expr("5 + 3 * 4") {
        Expr::MathExpr(MathExpr::Add(a)) => {
            assert_eq!(eval_expr(&a.left.expr), 5);
            assert!(matches!(a.right.expr, Expr::MathExpr(MathExpr::Mul(_))));
        },
        _ => panic!("expected an addition at the root"),
    }
}

#[test]
fn div_mul() {
    assert_eq!(eval_expr(&make_expr("30 / 5 * 5")), 30 / 5 * 5);
    // the tree associates as (30 / 5) * 5
    match make_expr("30 / 5 * 5") {
        Expr::MathExpr(MathExpr::Mul(m)) => {
            assert!(matches!(m.left.expr, Expr::MathExpr(MathExpr::Div(_))));
            assert_eq!(eval_expr(&m.right.expr), 5);
        },
        _ => panic!("expected a multiplication at the root"),
    }
}

#[test]
fn mul_div() {
    assert_eq!(eval_expr(&make_expr("30 * 5 / 5")), 30 * 5 / 5);
}

#[test]
fn range() {
    match make_expr("0..(len - 1)") {
        Expr::MathExpr(MathExpr::Range(r)) => {
            assert!(matches!(
                r.left.expr,
                Expr::ShortExpr(ShortExpr::Literal(Literal::Int(0)))
            ));
            match &r.right.expr {
                Expr::MathExpr(MathExpr::Parens(p)) => {
                    assert!(matches!(p.0.expr, Expr::MathExpr(MathExpr::Sub(_))));
                },
                _ => panic!("expected a parenthesized right side"),
            }
        },
        _ => panic!("expected a range"),
    }
}

#[test]
fn short_expr_ident() {
    match make_short("source") {
        ShortExpr::Ident(id) => assert_eq!(ident_text(&id), b"source"),
        _ => panic!("expected an identifier"),
    }
}

#[test]
fn get_by_index() {
    match make_short("a[i]") {
        ShortExpr::GetByIndex(GetByIndex { ident, index }) => {
            assert_eq!(ident_text(&ident.expr), b"a");
            match &index.expr {
                Expr::ShortExpr(ShortExpr::Ident(id)) => assert_eq!(ident_text(id), b"i"),
                _ => panic!("expected an identifier index"),
            }
        },
        _ => panic!("expected an indexed read"),
    }
}

#[test]
fn int_literal() {
    assert!(matches!(
        make_short("123"),
        ShortExpr::Literal(Literal::Int(123))
    ));
    assert!(matches!(
        make_short("0x42"),
        ShortExpr::Literal(Literal::Int(0x42))
    ));
    assert!(matches!(
        make_short("0b101"),
        ShortExpr::Literal(Literal::Int(0b101))
    ));
}

#[test]
fn bool_literal() {
    assert!(matches!(
        make_short("true"),
        ShortExpr::Literal(Literal::Bool(true))
    ));
    assert!(matches!(
        make_short("false"),
        ShortExpr::Literal(Literal::Bool(false))
    ));
}

#[test]
fn char_literal() {
    assert!(matches!(
        make_short("'a'"),
        ShortExpr::Literal(Literal::Char(b'a'))
    ));
    assert!(matches!(
        make_short(r#"'\t'"#),
        ShortExpr::Literal(Literal::Char(b'\t'))
    ));
    assert!(matches!(
        make_short(r#"'\\'"#),
        ShortExpr::Literal(Literal::Char(b'\\'))
    ));
}

#[test]
fn string_literal() {
    match make_short(r#""Hello""#) {
        ShortExpr::Literal(Literal::String(s)) => assert_eq!(s, b"Hello".to_vec()),
        _ => panic!("expected a string literal"),
    }
    match make_short(r#""\r\"\n\t""#) {
        ShortExpr::Literal(Literal::String(s)) => assert_eq!(s, b"\r\"\n\t".to_vec()),
        _ => panic!("expected a string literal"),
    }
}

#[test]
fn call() {
    make_expr("hello(world)");
    make_expr(r#"println(a + item)"#);
}

#[test]
fn set() {
    match make_top("a = b") {
        TopExpr::Assign(a) => {
            assert_eq!(ident_text(&a.name.expr), b"a");
            match &a.expr.expr {
                Expr::ShortExpr(ShortExpr::Ident(id)) => assert_eq!(ident_text(id), b"b"),
                _ => panic!("expected an identifier value"),
            }
        },
        _ => panic!("expected an assignment"),
    }
}

#[test]
fn set_by_index() {
    match make_top("a[i + j * n] = b") {
        TopExpr::SetByIndex(s) => {
            assert_eq!(ident_text(&s.get_by_index.ident.expr), b"a");
            assert!(matches!(
                s.get_by_index.index.expr,
                Expr::MathExpr(MathExpr::Add(_))
            ));
        },
        _ => panic!("expected an indexed store"),
    }
}

#[test]
fn bindings() {
    match make_top("val hello = 0") {
        TopExpr::Binding(b) => {
            assert!(!b.is_mut);
            assert_eq!(ident_text(&b.set.name.expr), b"hello");
        },
        _ => panic!("expected a binding"),
    }

    match make_top("var test = 4") {
        TopExpr::Binding(b) => {
            assert!(b.is_mut);
            assert_eq!(ident_text(&b.set.name.expr), b"test");
        },
        _ => panic!("expected a binding"),
    }
}

#[test]
fn sequence() {
    // a call's argument sequence parses and closes on the end symbol
    let (b, t) = lex("(hello)");
    let (args, np) =
        kotlite::parser::expr::expect_sequence(&b, &t, 1, t.len()).expect("sequence should parse");
    assert_eq!(np, t.len());
    assert_eq!(args.len(), 1);
}

#[test]
fn arg() {
    let (b, t) = lex("(array: Array<Int>)");
    let (params, np) =
        kotlite::parser::parse_params(&b, &t, 1, t.len()).expect("parameters should parse");
    assert_eq!(np, t.len());
    assert_eq!(params.len(), 1);
    assert_eq!(ident_text(&params[0].0), b"array");
    assert!(matches!(&params[0].1, Type::Generic(_, _)));
}

#[test]
fn mod_ident() {
    let (b, t) = lex("hello");
    let (id, np) = parser::parse_ident(&b, &t, 0, t.len()).expect("identifier should parse");
    assert_eq!(np, t.len());
    assert_eq!(id.0, b"hello".to_vec());
}

#[test]
fn type_simple() {
    match make_type("Int") {
        Type::Simple(id) => assert_eq!(ident_text(&id), b"Int"),
        _ => panic!("expected a simple type"),
    }
}

#[test]
fn type_generic() {
    match make_type("Array<Int>") {
        Type::Generic(id, params) => {
            assert_eq!(ident_text(&id), b"Array");
            assert_eq!(params.len(), 1);
            match &params[0] {
                Type::Simple(p) => assert_eq!(ident_text(p), b"Int"),
                _ => panic!("expected a simple parameter"),
            }
        },
        _ => panic!("expected a generic type"),
    }
}

#[test]
fn fun() {
    let fun = make_fun("fun test(array: Array<Int>): Int {}");

    assert_eq!(ident_text(&fun.name), b"test");
    match fun.ret_type {
        Some(Type::Simple(id)) => assert_eq!(ident_text(&id), b"Int"),
        _ => panic!("expected a declared return type"),
    }
    assert_eq!(fun.args.len(), 1);
    assert_eq!(ident_text(&fun.args[0].0), b"array");
    assert!(matches!(&fun.args[0].1, Type::Generic(_, _)));
    assert!(fun.body.is_empty());
}

#[test]
fn program() {
    make_program(HELLO_KT);
    make_program(ARRAYS_KT);
    make_program(FACTORIAL_KT);
    make_program(SORT_KT);
}

#[test]
fn spanned_statement_spans() {
    let (b, t) = lex("x = 1\ny = 2");
    let (st, np) = kotlite::parser::expr::parse_sp_top(&b, &t, 0, t.len())
        .expect("statement should parse");
    assert_eq!(np, 3);
    let _: Spanned<TopExpr> = st;
    assert_eq!(st.span.lo, 0);
    // the span runs to the start of the first token left over
    assert_eq!(st.span.hi, 5);
}

#[test]
fn leftover_tokens_are_reported() {
    let (b, t) = lex("fun main() {}\n)");
    assert!(Program::try_parse(&b, &t).is_err());
}

#[test]
fn unclosed_body_runs_out_of_input() {
    let (b, t) = lex("fun main() {");
    assert!(matches!(
        Program::try_parse(&b, &t),
        Err(parser::ParseError::UnexpectedEndOfInput)
    ));
}

#[test]
fn bad_function_name_is_an_unexpected_token() {
    let (b, t) = lex("fun 5() {}");
    assert!(matches!(
        Program::try_parse(&b, &t),
        Err(parser::ParseError::UnexpectedToken(_, _))
    ));
}

#[test]
fn a_literal_is_no_statement() {
    let (b, t) = lex("5");
    assert!(matches!(
        TopExpr::try_parse(&b, &t, 0, t.len()),
        Err(parser::ParseError::WrongExprType(_))
    ));
}

#[test]
fn missing_separators_are_tolerated() {
    let (b, t) = lex("f(1 2)");
    let (e, np) = Expr::try_parse(&b, &t, 0, t.len()).expect("call should parse");
    assert_eq!(np, t.len());
    match e {
        Expr::TopExpr(TopExpr::Call(c)) => assert_eq!(c.args.len(), 2),
        _ => panic!("expected a call"),
    }
}

#[test]
fn and_parses_before_comparison() {
    match make_expr("a < b && c < d") {
        Expr::ComparisonExpr(ComparisonExpr::And(a)) => {
            assert!(matches!(
                a.left.expr,
                Expr::ComparisonExpr(ComparisonExpr::LessThan(_))
            ));
            assert!(matches!(
                a.right.expr,
                Expr::ComparisonExpr(ComparisonExpr::LessThan(_))
            ));
        },
        _ => panic!("expected a conjunction at the root"),
    }
}
