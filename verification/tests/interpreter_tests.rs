//! Evaluator behaviour: the fixture programs run, and each runtime rule
//! is observable through the output transcript or the run's outcome.

use kotlite::analyzer::validation::check_program;
use kotlite::ast::Program;
use kotlite::interpreter::{Context, Object, RtErr};
use kotlite::lexer::tokenize;

const HELLO_KT: &str = "fun main() {\n    println(\"Hello, World!\")\n}\n";

const ARRAYS_KT: &str = "fun main() {\n    var numbers = arrayOf(1, 2, 3, 4)\n    var total = 0\n    for (n in numbers) {\n        total = total + n\n    }\n    println(\"total: \" + total)\n}\n";

const FACTORIAL_KT: &str = "fun factorial(n: Int): Int {\n    if (n < 2) {\n        return 1\n    }\n    return n * factorial(n - 1)\n}\n\nfun main() {\n    println(factorial(10))\n}\n";

const SORT_KT: &str = "fun sort(values: Array<Int>) {\n    val count = 4\n    var i = 0\n    while (i < count) {\n        var j = 0\n        while (j < (count - 1)) {\n            if (values[j + 1] < values[j]) {\n                val tmp = values[j]\n                values[j] = values[j + 1]\n                values[j + 1] = tmp\n            }\n            j = j + 1\n        }\n        i = i + 1\n    }\n}\n\nfun main() {\n    var values = arrayOf(3, 1, 4, 2)\n    sort(values)\n    var text = \"\"\n    for (v in values) {\n        text = text + v + \" \"\n    }\n    println(text)\n}\n";

const FUEL: u64 = 1_000_000;

fn run_checked(source: &str, input: &[&str]) -> (Result<Object, RtErr>, Vec<u8>) {
    let bytes = source.as_bytes().to_vec();
    let toks = tokenize(&bytes);
    let (prog, np) = Program::try_parse(&bytes, &toks).expect("program should parse");
    assert_eq!(np, toks.len(), "source is not fully parsed");
    assert!(check_program(&prog).is_empty(), "program should be accepted");
    let lines: Vec<Vec<u8>> = input.iter().map(|l| l.as_bytes().to_vec()).collect();
    let mut ctx = Context::new(prog, lines);
    let r = ctx.run(FUEL);
    let out = ctx.state.output.clone();
    (r, out)
}

fn output_of(source: &str) -> String {
    let (r, out) = run_checked(source, &[]);
    assert!(r.is_ok(), "the run should finish: {:?}", r.err());
    String::from_utf8(out).expect("output should be text")
}

#[test]
fn interpretation() {
    let (r, _) = run_checked(ARRAYS_KT, &[]);
    assert!(r.is_ok());
    let (r, _) = run_checked(HELLO_KT, &[]);
    assert!(r.is_ok());
    let (r, _) = run_checked(FACTORIAL_KT, &[]);
    assert!(r.is_ok());
    let (r, _) = run_checked(SORT_KT, &[]);
    assert!(r.is_ok());
}

#[test]
fn hello_output() {
    assert_eq!(output_of(HELLO_KT), "Hello, World!\n");
}

#[test]
fn arrays_output() {
    assert_eq!(output_of(ARRAYS_KT), "total: 10\n");
}

#[test]
fn factorial_output() {
    assert_eq!(output_of(FACTORIAL_KT), "3628800\n");
}

#[test]
fn sort_output() {
    assert_eq!(output_of(SORT_KT), "1 2 3 4 \n");
}

#[test]
fn array_aliasing_shares_backing() {
    let src = "fun main() {\n    var a = arrayOf(1, 2, 3)\n    var b = a\n    b[0] = 99\n    println(a[0])\n}\n";
    assert_eq!(output_of(src), "99\n");
}

#[test]
fn addition_wraps_around() {
    let src = "fun main() {\n    println(2147483647 + 1)\n}\n";
    assert_eq!(output_of(src), "-2147483648\n");
}

#[test]
fn return_stops_the_function_body() {
    let src = "fun f(): Int {\n    if (true) {\n        return 1\n    }\n    return 2\n}\n\nfun main() {\n    println(f())\n}\n";
    assert_eq!(output_of(src), "1\n");
}

#[test]
fn return_stops_a_loop() {
    let src = "fun f(): Int {\n    var i = 0\n    while (i < 10) {\n        if (i > 3) {\n            return i\n        }\n        i = i + 1\n    }\n    return 0\n}\n\nfun main() {\n    println(f())\n}\n";
    assert_eq!(output_of(src), "4\n");
}

#[test]
fn and_short_circuits() {
    let src = "fun noisy(): Boolean {\n    println(\"observed\")\n    return true\n}\n\nfun main() {\n    val x = false && noisy()\n    println(\"done\")\n}\n";
    assert_eq!(output_of(src), "done\n");
}

#[test]
fn or_short_circuits() {
    let src = "fun noisy(): Boolean {\n    println(\"observed\")\n    return false\n}\n\nfun main() {\n    val x = true || noisy()\n    println(\"done\")\n}\n";
    assert_eq!(output_of(src), "done\n");
}

#[test]
fn index_past_the_end_is_fatal() {
    let src = "fun main() {\n    var a = arrayOf(1, 2, 3)\n    println(a[5])\n}\n";
    let (r, out) = run_checked(src, &[]);
    assert!(matches!(r, Err(RtErr::IndexOutOfRange)));
    assert_eq!(out, b"".to_vec());
}

#[test]
fn negative_index_is_fatal() {
    let src = "fun main() {\n    var a = arrayOf(1, 2, 3)\n    println(a[0 - 1])\n}\n";
    let (r, _) = run_checked(src, &[]);
    assert!(matches!(r, Err(RtErr::IndexOutOfRange)));
}

#[test]
fn store_past_the_end_is_fatal() {
    let src = "fun main() {\n    var a = arrayOf(1, 2, 3)\n    a[5] = 0\n}\n";
    let (r, _) = run_checked(src, &[]);
    assert!(matches!(r, Err(RtErr::IndexOutOfRange)));
}

#[test]
fn readln_reads_lines_in_order() {
    let src = "fun main() {\n    val a = readln()\n    val b = readln()\n    println(b + a)\n}\n";
    let (r, out) = run_checked(src, &["first", "second"]);
    assert!(r.is_ok());
    assert_eq!(String::from_utf8(out).unwrap(), "secondfirst\n");
}

#[test]
fn readln_int_parses_or_dies() {
    let src = "fun main() {\n    val n = readlnInt()\n    println(n + 1)\n}\n";
    let (r, out) = run_checked(src, &["41"]);
    assert!(r.is_ok());
    assert_eq!(String::from_utf8(out).unwrap(), "42\n");

    let (r, _) = run_checked(src, &["nope"]);
    assert!(matches!(r, Err(RtErr::FailedToParseInt)));

    let (r, _) = run_checked(src, &[]);
    assert!(matches!(r, Err(RtErr::FailedToReadInput)));
}

#[test]
fn readln_boolean_parses_or_dies() {
    let src = "fun main() {\n    val b = readlnBoolean()\n    println(b)\n}\n";
    let (r, out) = run_checked(src, &["true"]);
    assert!(r.is_ok());
    assert_eq!(String::from_utf8(out).unwrap(), "true\n");

    let (r, _) = run_checked(src, &["yes"]);
    assert!(matches!(r, Err(RtErr::FailedToParseBoolean)));
}

#[test]
fn division_by_zero_is_fatal() {
    let src = "fun main() {\n    val a = 1\n    val b = 0\n    println(a / b)\n}\n";
    let (r, _) = run_checked(src, &[]);
    assert!(matches!(r, Err(RtErr::DivisionByZero)));
}

#[test]
fn for_over_range_is_inclusive() {
    let src = "fun main() {\n    var total = 0\n    for (i in 1..4) {\n        total = total + i\n    }\n    println(total)\n}\n";
    assert_eq!(output_of(src), "10\n");
}

#[test]
fn for_over_string_yields_chars() {
    // the checker refuses a string iterable, so this program is run
    // unchecked: the evaluator itself walks the string's characters
    let src = "fun main() {\n    var text = \"\"\n    for (c in \"abc\") {\n        text = text + c + \".\"\n    }\n    println(text)\n}\n";
    let bytes = src.as_bytes().to_vec();
    let toks = tokenize(&bytes);
    let (prog, _) = Program::try_parse(&bytes, &toks).expect("program should parse");
    assert!(check_program(&prog)
        .iter()
        .any(|(_, e)| matches!(e, kotlite::analyzer::CheckErr::OnlyArrayAndRangeIterable)));
    let mut ctx = Context::new(prog, Vec::new());
    let r = ctx.run(FUEL);
    assert!(r.is_ok());
    assert_eq!(String::from_utf8(ctx.state.output.clone()).unwrap(), "a.b.c.\n");
}

#[test]
fn while_scope_is_fresh_each_iteration() {
    let src = "fun main() {\n    var i = 0\n    while (i < 3) {\n        val x = i\n        i = i + 1\n    }\n    println(i)\n}\n";
    assert_eq!(output_of(src), "3\n");
}

#[test]
fn string_index_reads_a_char() {
    let src = "fun main() {\n    val s = \"abc\"\n    println(s[1])\n}\n";
    assert_eq!(output_of(src), "b\n");
}

#[test]
fn fuel_runs_out_instead_of_diverging() {
    let src = "fun main() {\n    while (true) {\n        val x = 1\n    }\n}\n";
    let bytes = src.as_bytes().to_vec();
    let toks = tokenize(&bytes);
    let (prog, _) = Program::try_parse(&bytes, &toks).expect("program should parse");
    assert!(check_program(&prog).is_empty());
    let mut ctx = Context::new(prog, Vec::new());
    assert!(matches!(ctx.run(1000), Err(RtErr::OutOfFuel)));
}

#[test]
fn print_concatenates_without_newline() {
    let src = "fun main() {\n    print(\"a\")\n    print(\"b\")\n    println(\"c\")\n}\n";
    assert_eq!(output_of(src), "abc\n");
}

#[test]
fn multiplication_wraps_around() {
    let src = "fun main() {\n    println(100000 * 100000)\n}\n";
    assert_eq!(output_of(src), "1410065408\n");
}

#[test]
fn negation_prints_a_sign() {
    let src = "fun main() {\n    println(-5)\n}\n";
    assert_eq!(output_of(src), "-5\n");
}

#[test]
fn boolean_negation_flips() {
    let src = "fun main() {\n    println(!false)\n}\n";
    assert_eq!(output_of(src), "true\n");
}

#[test]
fn string_comparison_is_lexicographic() {
    let src = "fun main() {\n    println(\"abc\" < \"abd\")\n    println(\"b\" < \"abd\")\n}\n";
    assert_eq!(output_of(src), "true\nfalse\n");
}

#[test]
fn unchecked_type_confusion_is_a_broken_invariant() {
    // a program the checker would reject still cannot crash the
    // evaluator: subtracting booleans stops the run cleanly
    let src = "fun main() {\n    val x = true - false\n}\n";
    let bytes = src.as_bytes().to_vec();
    let toks = tokenize(&bytes);
    let (prog, _) = Program::try_parse(&bytes, &toks).expect("program should parse");
    let mut ctx = Context::new(prog, Vec::new());
    assert!(matches!(ctx.run(FUEL), Err(RtErr::BrokenInvariant)));
}

#[test]
fn shadowed_binding_is_restored_after_the_block() {
    let src = "fun main() {\n    val x = 1\n    if (true) {\n        val x = 2\n        println(x)\n    }\n    println(x)\n}\n";
    assert_eq!(output_of(src), "2\n1\n");
}

#[test]
fn descending_range_yields_nothing() {
    let src = "fun main() {\n    var total = 0\n    for (i in 4..1) {\n        total = total + i\n    }\n    println(total)\n}\n";
    assert_eq!(output_of(src), "0\n");
}

#[test]
fn builtins_are_callable_directly() {
    let src = "fun main() {\n}\n";
    let bytes = src.as_bytes().to_vec();
    let toks = tokenize(&bytes);
    let (prog, _) = Program::try_parse(&bytes, &toks).expect("program should parse");
    let mut ctx = Context::new(prog, vec![b"7".to_vec()]);

    let r = kotlite::interpreter::eval::println(
        vec![Object::Int(-3), Object::Char(b'x')],
        &mut ctx.state,
    );
    assert!(r.is_ok());
    assert_eq!(ctx.state.output, b"-3x\n".to_vec());

    let r = kotlite::interpreter::eval::readlnInt(Vec::new(), &mut ctx.state);
    assert!(matches!(r, Ok(Object::Int(7))));

    let arr = kotlite::interpreter::eval::arrayOf(
        vec![Object::Int(1), Object::Int(2)],
        &mut ctx.state,
    );
    assert!(matches!(arr, Object::Array(0)));
}

#[test]
fn for_over_array_iterates_a_snapshot() {
    // the element sequence is fixed at loop entry: writes through the
    // handle during iteration do not change what the loop sees
    let src = "fun main() {\n    var a = arrayOf(1, 2, 3)\n    var total = 0\n    for (v in a) {\n        a[0] = 99\n        total = total + v\n    }\n    println(total)\n    println(a[0])\n}\n";
    assert_eq!(output_of(src), "6\n99\n");
}
