use alethia::interpreter::Interpreter;
use alethia::{run_line, run_source};

fn lines(src: &str) -> Vec<String> {
    let (out, res) = run_source(String::from(src));
    res.expect("program should run");
    out
}

fn fails(src: &str) -> (Vec<String>, String) {
    let (out, res) = run_source(String::from(src));
    (out, res.expect_err("program should fail"))
}

#[test]
fn prints_integer_literals() {
    assert_eq!(lines("print 0;"), vec!["0"]);
    assert_eq!(lines("print 7;"), vec!["7"]);
    assert_eq!(lines("print 42;"), vec!["42"]);
    assert_eq!(lines("print 1234567890;"), vec!["1234567890"]);
    assert_eq!(lines("print 9223372036854775807;"), vec!["9223372036854775807"]);
}

#[test]
fn concatenates_strings_and_numbers() {
    assert_eq!(lines("print \"x\" + 1;"), vec!["x1"]);
    assert_eq!(lines("print 1 + \"x\";"), vec!["1x"]);
}

#[test]
fn division_by_zero_is_an_error_with_no_output() {
    let (out, msg) = fails("print 1/0;");
    assert!(out.is_empty());
    assert_eq!(msg, "Division by zero");
}

#[test]
fn output_before_an_error_is_kept() {
    let (out, _msg) = fails("print 1; print 1/0;");
    assert_eq!(out, vec!["1"]);
}

#[test]
fn parameters_do_not_leak_but_declarations_do() {
    // the parameter p is gone after the call; the let inside the body is global
    let src = "func f(p) { let inner = p + 1; return p; }; f(10); print inner;";
    assert_eq!(lines(src), vec!["11"]);
    let (_, msg) = fails("func f(p) { return p; }; f(10); print p;");
    assert_eq!(msg, "Undefined variable: p");
}

#[test]
fn while_loop_with_break() {
    let src = "let i = 0; while i < 3 { print i; i = i + 1; if i == 2 { break; }; };";
    assert_eq!(lines(src), vec!["0", "1"]);
}

#[test]
fn array_indexing() {
    assert_eq!(lines("let a = [10,20,30]; print a[1];"), vec!["20"]);
    let (_, msg) = fails("let a = [10,20,30]; print a[5];");
    assert_eq!(msg, "Array index 5 out of bounds");
}

#[test]
fn dictionary_indexing() {
    assert_eq!(lines("let d = {\"k\": 5}; print d[\"k\"];"), vec!["5"]);
    let (_, msg) = fails("let d = {\"k\": 5}; print d[\"missing\"];");
    assert_eq!(msg, "Key 'missing' not found in dictionary");
}

#[test]
fn incremental_state_persists_across_lines() {
    let mut interp = Interpreter::new();
    let (first, res1) = run_line(String::from("let x = 1;"), &mut interp);
    res1.expect("declaration runs");
    assert!(first.is_empty());
    let (second, res2) = run_line(String::from("print x;"), &mut interp);
    res2.expect("print runs");
    assert_eq!(second, vec!["1"]);
}

#[test]
fn incremental_line_without_semicolon_runs() {
    let mut interp = Interpreter::new();
    let (out, res) = run_line(String::from("print 2 + 3"), &mut interp);
    res.expect("line runs");
    assert_eq!(out, vec!["5"]);
}

#[test]
fn incremental_parse_error_leaves_state_alone() {
    let mut interp = Interpreter::new();
    run_line(String::from("let x = 4;"), &mut interp).1.expect("declaration runs");
    let (none, bad) = run_line(String::from("let = ;"), &mut interp);
    assert!(none.is_empty());
    assert!(bad.expect_err("parse fails").starts_with("Parsing error: "));
    let (out, res) = run_line(String::from("print x;"), &mut interp);
    res.expect("print runs");
    assert_eq!(out, vec!["4"]);
}

#[test]
fn incremental_error_returns_partial_output() {
    let mut interp = Interpreter::new();
    let (out, res) = run_line(String::from("print 1; print 2/0;"), &mut interp);
    assert_eq!(out, vec!["1"]);
    assert!(res.expect_err("division fails").starts_with("Runtime error: "));
}

#[test]
fn equality_and_comparisons_are_strings() {
    assert_eq!(lines("print 1 == 1;"), vec!["true"]);
    assert_eq!(lines("print 1 == 2;"), vec!["false"]);
    assert_eq!(lines("print 1 < 2;"), vec!["true"]);
    assert_eq!(lines("print 2 > 3;"), vec!["false"]);
}

#[test]
fn conditions_accept_booleans_and_boolean_strings() {
    assert_eq!(lines("if true { print 1; };"), vec!["1"]);
    assert_eq!(lines("if 1 < 2 { print 1; } else { print 2; };"), vec!["1"]);
    let (_, msg) = fails("if 5 { print 1; };");
    assert!(msg.contains("boolean"));
}

#[test]
fn and_or_take_booleans_or_boolean_strings() {
    assert_eq!(lines("print true and false;"), vec!["false"]);
    assert_eq!(lines("print true or false;"), vec!["true"]);
    assert_eq!(lines("if 1 == 1 and 2 == 2 { print 9; };"), vec!["9"]);
    fails("print 1 and 2;");
    // both sides must be boolean-valued: a non-boolean right string is an error
    fails("print 1 == 1 and \"xyz\";");
    fails("print 1 == 1 or \"xyz\";");
}

#[test]
fn functions_return_values() {
    assert_eq!(lines("func add2(x, y) { return x + y; } print add2(1, 2);"), vec!["3"]);
    assert_eq!(lines("func f() { return; } print f() == nil;"), vec!["true"]);
    // omitted return yields the last statement's value
    assert_eq!(lines("func g() { let z = 41 + 1; } print g();"), vec!["42"]);
}

#[test]
fn recursion_works() {
    let src = "func fact(n) { if n < 2 { return 1; }; return n * fact(n - 1); } print fact(5);";
    assert_eq!(lines(src), vec!["120"]);
}

#[test]
fn break_outside_loop_is_a_top_level_error() {
    let (_, msg) = fails("break;");
    assert_eq!(msg, "Break statement outside of loop");
    let (_, msg2) = fails("return 1;");
    assert_eq!(msg2, "Return statement outside of function: 1");
}

#[test]
fn print_skips_nil_and_rejects_functions() {
    assert_eq!(lines("print nil;"), Vec::<String>::new());
    fails("func f() { return 1; } print f;");
}

#[test]
fn nested_function_declaration_needs_no_semicolon() {
    let src = "let n = 0; while n < 1 { func f() { return 8; } n = n + 1; }; print f();";
    assert_eq!(lines(src), vec!["8"]);
}

#[test]
fn unicode_letters_continue_identifiers() {
    assert_eq!(lines("let caf\u{e9} = 1; print caf\u{e9};"), vec!["1"]);
}

#[test]
fn displays_collections() {
    assert_eq!(lines("print [1, \"x\", nil];"), vec!["[1, x, nil]"]);
    assert_eq!(lines("print {\"k\": 5};"), vec!["{\"k\": 5}"]);
}

#[test]
fn string_and_nil_concatenation() {
    assert_eq!(lines("print \"x\" + nil;"), vec!["xnil"]);
    assert_eq!(lines("print nil + \"x\";"), vec!["xnil"]);
}

#[test]
fn assignment_prefers_existing_binding() {
    // assignment shares the declaration's AST shape and writes the global map
    assert_eq!(lines("let i = 1; i = i + 1; print i;"), vec!["2"]);
}

#[test]
fn literal_start_expression_statements_parse() {
    assert_eq!(lines("1 + 2; print 3;"), vec!["3"]);
    assert_eq!(lines("\"x\"; print 4;"), vec!["4"]);
    let mut interp = Interpreter::new();
    let (out, res) = run_line(String::from("2 + 2"), &mut interp);
    res.expect("expression line runs");
    assert!(out.is_empty());
}
