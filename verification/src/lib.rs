//! A small dynamically-typed scripting language: lexer, recursive-descent
//! parser, and tree-walking evaluator with a scope chain, first-class
//! functions, and structured control flow.
//!
//! The pipeline is text -> tokens -> abstract syntax tree -> evaluation.
//! Every stage is specified against a mathematical model: the lexer against
//! a character-level scanning function, the parser against a fueled
//! recursive-descent specification over token sequences, and the evaluator
//! against a fueled big-step semantics over ghost states. The two entry
//! points below run the whole pipeline: once per program, or incrementally
//! against a persistent interpreter.

use vstd::prelude::*;

pub mod token;
pub mod ast;
pub mod interpreter;
pub mod lexer;
pub mod parser;
pub mod text;
pub mod value;

use crate::ast::{AstNode, AstV};
use crate::interpreter::{
    init_state, lines_view, spec_eval, EvalOut, Interpreter, InterpreterError, StateV,
};
use crate::lexer::{lex_all, tokenize};
use crate::parser::{spec_parse_line, spec_parse_program, Parser};
use crate::value::str_to_string;

verus! {

broadcast use {vstd::std_specs::vec::group_vec_axioms, vstd::seq::group_seq_axioms};


/// The text reported when a `return` signal reaches the top level: the
/// returned value's display text is appended when it has one.
pub open spec fn return_escape_msg(v: crate::value::ValueV) -> Seq<char> {
    match crate::value::display_spec(v) {
        Some(t) => "Return statement outside of function: "@ + t,
        None => "Return statement outside of function"@,
    }
}

/// Lexes, parses and evaluates a complete program against a fresh
/// interpreter. The first component holds every line the program printed
/// before it finished or failed; the second is the success, or the text of
/// the first lexical, parse or evaluation failure, with a `break` or
/// `return` reaching the top level reported as an error.
pub fn run_source(source: String) -> (r: (Vec<String>, Result<(), String>))
    ensures
        ({
            let toks = lex_all(source@, 0);
            match spec_parse_program(toks, 0, u64::MAX as nat) {
                Err(m) => r.1 matches Err(s) && s@ == m && lines_view(r.0) == Seq::<
                    Seq<char>,
                >::empty(),
                Ok((ast, _)) => ({
                    let (st, out) = spec_eval(init_state(), ast, u64::MAX as nat);
                    lines_view(r.0) == st.output && (match out {
                        EvalOut::Val(_) => r.1 is Ok,
                        EvalOut::Brk => r.1 matches Err(m) && m@
                            == "Break statement outside of loop"@,
                        EvalOut::Ret(v) => r.1 matches Err(m) && m@ == return_escape_msg(v),
                        EvalOut::Fail(t) => r.1 matches Err(m) && m@ == t,
                        EvalOut::Spent => r.1 matches Err(m) && m@
                            == "Evaluation budget exhausted"@,
                    })
                }),
            }
        }),
{
    let tokens = tokenize(source);
    let mut parser = Parser::new(tokens);
    let ast = match parser.parse_program() {
        Ok(a) => a,
        Err(e) => {
            let none: Vec<String> = Vec::new();
            proof {
                assert(lines_view(none) =~= Seq::<Seq<char>>::empty());
            }
            return (none, Err(e));
        },
    };
    let mut interp = Interpreter::new();
    let res = interp.evaluate(&ast, u64::MAX);
    let lines = interp.take_output();
    match res {
        Ok(_) => (lines, Ok(())),
        Err(InterpreterError::Break) => (
            lines,
            Err(str_to_string("Break statement outside of loop")),
        ),
        Err(InterpreterError::Return(v)) => (lines, Err(return_escape_text(&v))),
        Err(InterpreterError::Error(msg)) => (lines, Err(msg)),
    }
}

/// Builds the text for a `return` signal that escaped to the top level.
fn return_escape_text(v: &crate::value::Value) -> (r: String)
    ensures
        r@ == return_escape_msg(v@),
{
    match v.render() {
        Some(t) => {
            let mut m = str_to_string("Return statement outside of function: ");
            m.append(t.as_str());
            m
        },
        None => str_to_string("Return statement outside of function"),
    }
}

/// Lexes and parses one incremental line as a sequence of statements and
/// evaluates them against the caller's persistent interpreter: globals and
/// scope state carry over between calls, which is how an interactive
/// session keeps its variables. The first component holds every line this
/// call printed before it finished or failed; the second is the success or
/// the error text. The output buffer starts empty (a fresh interpreter's
/// is, and every call leaves it so).
pub fn run_line(source: String, interpreter: &mut Interpreter) -> (r: (
    Vec<String>,
    Result<(), String>,
))
    requires
        old(interpreter)@.output.len() == 0,
    ensures
        final(interpreter)@.output.len() == 0,
        ({
            let toks = lex_all(source@, 0);
            match spec_parse_line(toks, 0, u64::MAX as nat) {
                Err(t) => r.1 matches Err(m) && final(interpreter)@ == old(interpreter)@
                    && lines_view(r.0) == Seq::<Seq<char>>::empty() && m@ == "Parsing error: "@
                    + t,
                Ok((stmts, _)) => ({
                    let (st, out) = spec_eval(
                        old(interpreter)@,
                        AstV::Program(stmts),
                        u64::MAX as nat,
                    );
                    final(interpreter)@ == (StateV { output: Seq::empty(), ..st }) && lines_view(
                        r.0,
                    ) == st.output && (match out {
                        EvalOut::Val(_) => r.1 is Ok,
                        EvalOut::Brk => r.1 matches Err(m) && m@
                            == "Break statement outside of loop"@,
                        EvalOut::Ret(v) => r.1 matches Err(m) && m@ == return_escape_msg(v),
                        EvalOut::Fail(t) => r.1 matches Err(m) && m@ == "Runtime error: "@ + t,
                        EvalOut::Spent => r.1 matches Err(m) && m@ == "Runtime error: "@
                            + "Evaluation budget exhausted"@,
                    })
                }),
            }
        }),
{
    let tokens = tokenize(source);
    let mut parser = Parser::new(tokens);
    let stmts = match parser.parse_line() {
        Ok(ss) => ss,
        Err(e) => {
            let mut msg = str_to_string("Parsing error: ");
            msg.append(e.as_str());
            let none: Vec<String> = Vec::new();
            proof {
                assert(lines_view(none) =~= Seq::<Seq<char>>::empty());
            }
            return (none, Err(msg));
        },
    };
    let program = AstNode::Program(stmts);
    let res = interpreter.evaluate(&program, u64::MAX);
    let lines = interpreter.take_output();
    match res {
        Ok(_) => (lines, Ok(())),
        Err(InterpreterError::Break) => (
            lines,
            Err(str_to_string("Break statement outside of loop")),
        ),
        Err(InterpreterError::Return(v)) => (lines, Err(return_escape_text(&v))),
        Err(InterpreterError::Error(msg)) => {
            let mut text = str_to_string("Runtime error: ");
            text.append(msg.as_str());
            (lines, Err(text))
        },
    }
}


/// Printing an integer literal, end to end: for every non-negative 64-bit
/// value N, the source text `print N;` lexes, parses and evaluates without
/// error, and its whole output is the one line holding the decimal
/// rendering of N. With `run_source`'s contract this pins what the entry
/// point returns on such a program.
pub proof fn lemma_print_literal_end_to_end(n: i64, src: Seq<char>)
    requires
        n >= 0,
        src == "print "@ + crate::value::dec_str(n as int) + ";"@,
    ensures
        ({
            let toks = lex_all(src, 0);
            spec_parse_program(toks, 0, u64::MAX as nat) matches Ok((ast, p)) && ({
                let (st, out) = spec_eval(init_state(), ast, u64::MAX as nat);
                out is Val && st.output == seq![crate::value::dec_str(n as int)]
            })
        }),
{
    crate::lexer::lemma_lex_print_literal(n, src);
    crate::parser::lemma_parse_print_literal(n);
    crate::interpreter::lemma_print_number_outputs_decimal(n, u64::MAX as nat);
}

} // verus!
