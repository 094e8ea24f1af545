//! Type checker behaviour: the fixture programs are accepted, and each
//! rejection rule fires with its own diagnostic.

use kotlite::analyzer::validation::check_program;
use kotlite::analyzer::CheckErr;
use kotlite::ast::Program;
use kotlite::lexer::tokenize;
use kotlite::lexer::Span;

const HELLO_KT: &str = "fun main() {\n    println(\"Hello, World!\")\n}\n";

const ARRAYS_KT: &str = "fun main() {\n    var numbers = arrayOf(1, 2, 3, 4)\n    var total = 0\n    for (n in numbers) {\n        total = total + n\n    }\n    println(\"total: \" + total)\n}\n";

const FACTORIAL_KT: &str = "fun factorial(n: Int): Int {\n    if (n < 2) {\n        return 1\n    }\n    return n * factorial(n - 1)\n}\n\nfun main() {\n    println(factorial(10))\n}\n";

const SORT_KT: &str = "fun sort(values: Array<Int>) {\n    val count = 4\n    var i = 0\n    while (i < count) {\n        var j = 0\n        while (j < (count - 1)) {\n            if (values[j + 1] < values[j]) {\n                val tmp = values[j]\n                values[j] = values[j + 1]\n                values[j + 1] = tmp\n            }\n            j = j + 1\n        }\n        i = i + 1\n    }\n}\n\nfun main() {\n    var values = arrayOf(3, 1, 4, 2)\n    sort(values)\n    var text = \"\"\n    for (v in values) {\n        text = text + v + \" \"\n    }\n    println(text)\n}\n";

fn check(source: &str) -> Vec<(Span, CheckErr)> {
    let bytes = source.as_bytes().to_vec();
    let toks = tokenize(&bytes);
    let (prog, np) = Program::try_parse(&bytes, &toks).expect("program should parse");
    assert_eq!(np, toks.len(), "source is not fully parsed");
    check_program(&prog)
}

#[test]
fn validation() {
    assert!(check(ARRAYS_KT).is_empty());
    assert!(check(HELLO_KT).is_empty());
    assert!(check(FACTORIAL_KT).is_empty());
}

#[test]
fn sort_sample_is_accepted() {
    assert!(check(SORT_KT).is_empty());
}

#[test]
fn duplicate_function_is_reported() {
    let errs = check("fun main() {\n}\n\nfun main() {\n}\n");
    assert!(errs
        .iter()
        .any(|(_, e)| matches!(e, CheckErr::FunctionAlreadyDefined(n) if n.as_slice() == b"main")));
}

#[test]
fn main_with_arguments_is_reported() {
    let errs = check("fun main(x: Int) {\n}\n");
    assert!(errs
        .iter()
        .any(|(_, e)| matches!(e, CheckErr::MainMustAcceptNoArguments)));
}

#[test]
fn missing_main_is_reported() {
    let errs = check("fun other() {\n}\n");
    assert!(errs.iter().any(|(_, e)| matches!(e, CheckErr::MainNotFound)));
}

#[test]
fn non_boolean_condition_is_reported() {
    let errs = check("fun main() {\n    if (1) {\n    }\n}\n");
    assert!(errs
        .iter()
        .any(|(_, e)| matches!(e, CheckErr::ConditionMustBeBoolean)));
}

#[test]
fn comparing_booleans_is_reported() {
    let errs = check("fun main() {\n    val x = true < false\n}\n");
    assert!(errs
        .iter()
        .any(|(_, e)| matches!(e, CheckErr::CantCompareBooleans)));
}

#[test]
fn mixed_array_of_is_reported() {
    let errs = check("fun main() {\n    val a = arrayOf(1, \"a\")\n}\n");
    assert!(errs
        .iter()
        .any(|(_, e)| matches!(e, CheckErr::ArrayOfArgumentsMustHaveSameType)));
}

#[test]
fn unknown_name_is_reported() {
    let errs = check("fun main() {\n    val x = y\n}\n");
    assert!(errs
        .iter()
        .any(|(_, e)| matches!(e, CheckErr::IdentNotFound(n) if n.as_slice() == b"y")));
}

#[test]
fn unknown_function_is_reported() {
    let errs = check("fun main() {\n    missing(1)\n}\n");
    assert!(errs
        .iter()
        .any(|(_, e)| matches!(e, CheckErr::FunNotFound(n) if n.as_slice() == b"missing")));
}

#[test]
fn wrong_call_arguments_are_reported() {
    let errs = check(
        "fun helper(n: Int) {\n}\n\nfun main() {\n    helper(true)\n}\n",
    );
    assert!(errs
        .iter()
        .any(|(_, e)| matches!(e, CheckErr::FunWrongArguments(n) if n.as_slice() == b"helper")));
}

#[test]
fn redeclaration_in_same_scope_is_reported() {
    let errs = check("fun main() {\n    val x = 1\n    val x = 2\n}\n");
    assert!(errs
        .iter()
        .any(|(_, e)| matches!(e, CheckErr::BindingAlreadyDefined(n) if n.as_slice() == b"x")));
}

#[test]
fn assigning_wrong_type_is_reported() {
    let errs = check("fun main() {\n    var x = 1\n    x = true\n}\n");
    assert!(errs
        .iter()
        .any(|(_, e)| matches!(e, CheckErr::VariableDifferentType(n) if n.as_slice() == b"x")));
}

#[test]
fn wrong_return_type_is_reported() {
    let errs = check("fun f(): Int {\n    return true\n}\n\nfun main() {\n    f()\n}\n");
    assert!(errs
        .iter()
        .any(|(_, e)| matches!(e, CheckErr::WrongReturnType)));
}

#[test]
fn iterating_an_int_is_reported() {
    let errs = check("fun main() {\n    for (x in 5) {\n    }\n}\n");
    assert!(errs
        .iter()
        .any(|(_, e)| matches!(e, CheckErr::OnlyArrayAndRangeIterable)));
}

#[test]
fn shadowing_in_inner_scope_is_accepted() {
    let errs = check(
        "fun main() {\n    val x = 1\n    if (true) {\n        val x = 2\n        println(x)\n    }\n}\n",
    );
    assert!(errs.is_empty());
}

#[test]
fn string_concatenation_mixes_types() {
    let errs = check("fun main() {\n    println(\"n = \" + 3)\n}\n");
    assert!(errs.is_empty());
}

#[test]
fn declared_char_type_is_unrecognized() {
    // a parameter declared `Char` has no recognized type, so calling the
    // function with a character argument cannot match it
    let errs = check(
        "fun f(c: Char) {\n}\n\nfun main() {\n    f('a')\n}\n",
    );
    assert!(errs
        .iter()
        .any(|(_, e)| matches!(e, CheckErr::FunWrongArguments(n) if n.as_slice() == b"f")));
}

#[test]
fn empty_array_of_is_reported() {
    let errs = check("fun main() {\n    val a = arrayOf()\n}\n");
    assert!(errs
        .iter()
        .any(|(_, e)| matches!(e, CheckErr::ArrayOfMustHaveArgument)));
}

#[test]
fn readln_with_arguments_is_reported() {
    let errs = check("fun main() {\n    val x = readln(5)\n}\n");
    assert!(errs
        .iter()
        .any(|(_, e)| matches!(e, CheckErr::AcceptsNoArguments(n) if n.as_slice() == b"readln")));
}

#[test]
fn mismatched_operands_are_reported() {
    let errs = check("fun main() {\n    val x = 1 - true\n}\n");
    assert!(errs
        .iter()
        .any(|(_, e)| matches!(e, CheckErr::WrongOperands)));
}

#[test]
fn boolean_operator_on_ints_is_reported() {
    let errs = check("fun main() {\n    val x = 1 && 2\n}\n");
    assert!(errs
        .iter()
        .any(|(_, e)| matches!(e, CheckErr::BoolOperatorsOnlyBooleans)));
}

#[test]
fn comparing_arrays_is_reported() {
    let errs = check(
        "fun main() {\n    val a = arrayOf(1)\n    val b = arrayOf(2)\n    val x = a < b\n}\n",
    );
    assert!(errs
        .iter()
        .any(|(_, e)| matches!(e, CheckErr::CantCompareTypes)));
}

#[test]
fn negating_a_boolean_with_minus_is_reported() {
    let errs = check("fun main() {\n    val x = -true\n}\n");
    assert!(errs.iter().any(|(_, e)| matches!(e, CheckErr::NegOnlyInt)));
}

#[test]
fn boolean_negating_an_int_is_reported() {
    let errs = check("fun main() {\n    val x = !1\n}\n");
    assert!(errs
        .iter()
        .any(|(_, e)| matches!(e, CheckErr::BoolNegOnlyBoolean)));
}

#[test]
fn adding_unit_is_reported() {
    let errs = check("fun f() {\n}\n\nfun main() {\n    val x = 1 + f()\n}\n");
    assert!(errs.iter().any(|(_, e)| matches!(e, CheckErr::CantAddUnit)));
}

#[test]
fn non_int_index_is_reported() {
    let errs = check("fun main() {\n    val a = arrayOf(1)\n    val x = a[true]\n}\n");
    assert!(errs.iter().any(|(_, e)| matches!(e, CheckErr::OnlyIntIndex)));
}

#[test]
fn indexing_an_int_is_reported() {
    let errs = check("fun main() {\n    val n = 5\n    val x = n[0]\n}\n");
    assert!(errs
        .iter()
        .any(|(_, e)| matches!(e, CheckErr::IndexOnlyArraysAndStrings)));
}

#[test]
fn assigning_an_unknown_variable_is_reported() {
    let errs = check("fun main() {\n    y = 5\n}\n");
    assert!(errs
        .iter()
        .any(|(_, e)| matches!(e, CheckErr::VariableNotFoundInScope(n) if n.as_slice() == b"y")));
}

#[test]
fn equal_typed_subtraction_of_booleans_is_accepted() {
    // the rule demands only equal operand types, so a boolean
    // subtraction passes the checker; the evaluator treats it as a
    // broken invariant at runtime
    let errs = check("fun main() {\n    val x = true - false\n}\n");
    assert!(errs.is_empty());
}

#[test]
fn comparison_binds_tighter_than_subtraction() {
    // `j < count - 1` splits at the subtraction first, leaving a
    // boolean left operand: the checker reports mismatched operands
    let errs = check(
        "fun main() {\n    val j = 0\n    val count = 4\n    val x = j < count - 1\n}\n",
    );
    assert!(errs
        .iter()
        .any(|(_, e)| matches!(e, CheckErr::WrongOperands)));
}
