//! The interpreter: walks the abstract syntax tree, maintaining a scope
//! chain over a single global map, and evaluates each node to a value or a
//! control-flow signal. Printed lines are collected in the state; the
//! caller decides where they go.
//!
//! The semantics is [`spec_eval`]: a fueled big-step function from a ghost
//! state and a node to the state after evaluation and its outcome. Fuel
//! falls by one at every recursive step, so the function is total; the
//! executable evaluator threads the same fuel and is proved to follow it
//! exactly. A `let` (and the plain assignment, which shares its AST shape)
//! always writes the global map; function declarations and parameter
//! bindings write through the scope chain, overwriting the innermost
//! existing binding and falling back to the innermost frame.

use vstd::prelude::*;
use crate::ast::{AstNode, AstV};
use crate::token::{Token, TokenV};
use crate::value::{
    add_spec, bool_chars, display_spec, div_spec, entries_view, lang_eq, mul_spec, str_to_string,
    sub_spec, values_equal, values_view, value_view, Value, ValueV,
};

verus! {

broadcast use {vstd::std_specs::vec::group_vec_axioms, vstd::seq::group_seq_axioms};

/// The evaluation state: the global bindings, the scope stack (innermost
/// frame last), and the lines printed so far.
pub struct StateV {
    pub globals: Seq<(Seq<char>, ValueV)>,
    pub scopes: Seq<Seq<(Seq<char>, ValueV)>>,
    pub output: Seq<Seq<char>>,
}

/// The outcome of evaluating one node.
pub enum EvalOut {
    /// A value
    Val(ValueV),
    /// A `break` signal, caught by the enclosing loop
    Brk,
    /// A `return` signal carrying its value, caught by the enclosing call
    Ret(ValueV),
    /// An evaluation error, with its message
    Fail(Seq<char>),
    /// The fuel ran out
    Spent,
}

/// An evaluation outcome other than a plain value: the two control-flow
/// signals, and an error with its message.
#[derive(Debug)]
pub enum InterpreterError {
    /// A `break` signal
    Break,
    /// A `return` signal carrying its value
    Return(Value),
    /// An evaluation error
    Error(String),
}

/// The first binding of a key in an association list.
pub open spec fn assoc_get(s: Seq<(Seq<char>, ValueV)>, k: Seq<char>) -> Option<ValueV>
    decreases s,
{
    if s.len() == 0 {
        None
    } else if s[0].0 == k {
        Some(s[0].1)
    } else {
        assoc_get(s.drop_first(), k)
    }
}

/// An association list with a key bound to a value: the first existing
/// binding replaced, or the pair appended.
pub open spec fn assoc_set(s: Seq<(Seq<char>, ValueV)>, k: Seq<char>, v: ValueV) -> Seq<
    (Seq<char>, ValueV),
>
    decreases s,
{
    if s.len() == 0 {
        seq![(k, v)]
    } else if s[0].0 == k {
        seq![(k, v)] + s.drop_first()
    } else {
        seq![s[0]] + assoc_set(s.drop_first(), k, v)
    }
}

/// The binding of a name in the scope stack, innermost frame first.
pub open spec fn scopes_get(scopes: Seq<Seq<(Seq<char>, ValueV)>>, n: Seq<char>) -> Option<ValueV>
    decreases scopes,
{
    if scopes.len() == 0 {
        None
    } else {
        match assoc_get(scopes.last(), n) {
            Some(v) => Some(v),
            None => scopes_get(scopes.drop_last(), n),
        }
    }
}

/// Whether any frame of the scope stack binds a name.
pub open spec fn scopes_has(scopes: Seq<Seq<(Seq<char>, ValueV)>>, n: Seq<char>) -> bool {
    scopes_get(scopes, n) is Some
}

/// The scope stack with the innermost existing binding of a name
/// overwritten; unchanged when no frame binds it.
pub open spec fn scopes_update(
    scopes: Seq<Seq<(Seq<char>, ValueV)>>,
    n: Seq<char>,
    v: ValueV,
) -> Seq<Seq<(Seq<char>, ValueV)>>
    decreases scopes,
{
    if scopes.len() == 0 {
        scopes
    } else if assoc_get(scopes.last(), n) is Some {
        scopes.drop_last().push(assoc_set(scopes.last(), n, v))
    } else {
        scopes_update(scopes.drop_last(), n, v).push(scopes.last())
    }
}

/// Reading a name: the scope stack innermost to outermost, then the global
/// map.
pub open spec fn lookup_var(st: StateV, n: Seq<char>) -> Option<ValueV> {
    match scopes_get(st.scopes, n) {
        Some(v) => Some(v),
        None => assoc_get(st.globals, n),
    }
}

/// A declaration (and the plain assignment, which shares its AST shape):
/// always writes the global map.
pub open spec fn declare_st(st: StateV, n: Seq<char>, v: ValueV) -> StateV {
    StateV { globals: assoc_set(st.globals, n, v), ..st }
}

/// A scope-chain write: overwrites the innermost existing binding; with
/// none, writes the innermost frame, or the global map when the stack is
/// empty.
pub open spec fn set_var_st(st: StateV, n: Seq<char>, v: ValueV) -> StateV {
    if scopes_has(st.scopes, n) {
        StateV { scopes: scopes_update(st.scopes, n, v), ..st }
    } else if st.scopes.len() > 0 {
        StateV {
            scopes: st.scopes.drop_last().push(assoc_set(st.scopes.last(), n, v)),
            ..st
        }
    } else {
        StateV { globals: assoc_set(st.globals, n, v), ..st }
    }
}

/// The state with one fresh scope frame pushed.
pub open spec fn push_st(st: StateV) -> StateV {
    StateV { scopes: st.scopes.push(Seq::empty()), ..st }
}

/// The state with the innermost scope frame popped; unchanged when the
/// stack is empty.
pub open spec fn pop_st(st: StateV) -> StateV {
    if st.scopes.len() > 0 {
        StateV { scopes: st.scopes.drop_last(), ..st }
    } else {
        st
    }
}

/// The state with one line appended to the output.
pub open spec fn out_st(st: StateV, line: Seq<char>) -> StateV {
    StateV { output: st.output.push(line), ..st }
}

/// The state of a fresh interpreter: no globals, one empty scope frame, no
/// output.
pub open spec fn init_state() -> StateV {
    StateV { globals: Seq::empty(), scopes: seq![Seq::<(Seq<char>, ValueV)>::empty()], output: Seq::empty() }
}

/// Truthiness: booleans, and the exact strings `true` and `false`; nothing
/// else is a valid condition.
pub open spec fn truthy_spec(v: ValueV) -> Option<bool> {
    match v {
        ValueV::Bool(b) => Some(b),
        ValueV::String(s) => {
            if s == "true"@ || s == "false"@ {
                Some(s == "true"@)
            } else {
                None
            }
        },
        _ => None,
    }
}

/// What a binary operator yields on two evaluated operands, or an error.
/// Comparisons yield the strings `true`/`false`; `and`/`or` accept two
/// booleans or two strings that are both `true` or `false`, and always
/// evaluate both sides: there is no short circuit.
pub open spec fn bin_op_spec(op: TokenV, lv: ValueV, rv: ValueV) -> Result<ValueV, Seq<char>> {
    match op {
        TokenV::Plus => match add_spec(lv, rv) {
            Some(v) => Ok(v),
            None => Err(crate::value::add_err_spec(lv, rv)),
        },
        TokenV::Minus => match sub_spec(lv, rv) {
            Some(v) => Ok(v),
            None => Err(crate::value::sub_err_spec(lv, rv)),
        },
        TokenV::Multiply => match mul_spec(lv, rv) {
            Some(v) => Ok(v),
            None => Err(crate::value::mul_err_spec(lv, rv)),
        },
        TokenV::Divide => {
            if rv == ValueV::Number(0i64) {
                Err("Division by zero"@)
            } else {
                match div_spec(lv, rv) {
                    Some(v) => Ok(v),
                    None => Err(crate::value::div_err_spec(lv, rv)),
                }
            }
        },
        TokenV::Equal => Ok(ValueV::String(bool_chars(lang_eq(lv, rv)))),
        TokenV::LessThan => match (lv, rv) {
            (ValueV::Number(a), ValueV::Number(b)) => Ok(ValueV::String(bool_chars(a < b))),
            _ => Err("Cannot compare non-numeric values with <"@),
        },
        TokenV::GreaterThan => match (lv, rv) {
            (ValueV::Number(a), ValueV::Number(b)) => Ok(ValueV::String(bool_chars(a > b))),
            _ => Err("Cannot compare non-numeric values with >"@),
        },
        TokenV::And => match (lv, rv) {
            (ValueV::Bool(a), ValueV::Bool(b)) => Ok(ValueV::Bool(a && b)),
            (ValueV::String(ls), ValueV::String(rs)) => {
                if (ls == "true"@ || ls == "false"@) && (rs == "true"@ || rs == "false"@) {
                    Ok(ValueV::Bool(ls == "true"@ && rs == "true"@))
                } else {
                    Err("Cannot apply `and` to non-boolean values"@)
                }
            },
            _ => Err("Cannot apply `and` to non-boolean values"@),
        },
        TokenV::Or => match (lv, rv) {
            (ValueV::Bool(a), ValueV::Bool(b)) => Ok(ValueV::Bool(a || b)),
            (ValueV::String(ls), ValueV::String(rs)) => {
                if (ls == "true"@ || ls == "false"@) && (rs == "true"@ || rs == "false"@) {
                    Ok(ValueV::Bool(ls == "true"@ || rs == "true"@))
                } else {
                    Err("Cannot apply `or` to non-boolean values"@)
                }
            },
            _ => Err("Cannot apply `or` to non-boolean values"@),
        },
        _ => Err("Unsupported operator"@),
    }
}

/// Evaluates one node: the state after it and its outcome.
pub open spec fn spec_eval(st: StateV, node: AstV, fuel: nat) -> (StateV, EvalOut)
    decreases fuel,
{
    if fuel == 0 {
        (st, EvalOut::Spent)
    } else {
        let f = (fuel - 1) as nat;
        match node {
            AstV::Program(stmts) => {
                let (st1, out) = spec_eval_stmts(st, stmts, f);
                match out {
                    EvalOut::Brk => (st1, EvalOut::Fail("Break statement outside of loop"@)),
                    _ => (st1, out),
                }
            },
            AstV::Block(stmts) => spec_eval_stmts(st, stmts, f),
            AstV::VariableDeclaration { name, value } => {
                let (st1, out) = spec_eval(st, *value, f);
                match out {
                    EvalOut::Val(v) => (declare_st(st1, name, v), EvalOut::Val(v)),
                    _ => (st1, out),
                }
            },
            AstV::PrintStatement(e) => {
                let (st1, out) = spec_eval(st, *e, f);
                match out {
                    EvalOut::Val(v) => {
                        if v is Nil {
                            (st1, EvalOut::Val(ValueV::Number(0i64)))
                        } else {
                            match display_spec(v) {
                                Some(t) => (out_st(st1, t), EvalOut::Val(ValueV::Number(0i64))),
                                None => (st1, EvalOut::Fail("Cannot display this value"@)),
                            }
                        }
                    },
                    _ => (st1, out),
                }
            },
            AstV::BinaryExpression { left, operator, right } => {
                let (st1, lout) = spec_eval(st, *left, f);
                match lout {
                    EvalOut::Val(lv) => {
                        let (st2, rout) = spec_eval(st1, *right, f);
                        match rout {
                            EvalOut::Val(rv) => match bin_op_spec(operator, lv, rv) {
                                Ok(v) => (st2, EvalOut::Val(v)),
                                Err(m) => (st2, EvalOut::Fail(m)),
                            },
                            _ => (st2, rout),
                        }
                    },
                    _ => (st1, lout),
                }
            },
            AstV::Bool(b) => (st, EvalOut::Val(ValueV::Bool(b))),
            AstV::StringLiteral(s) => (st, EvalOut::Val(ValueV::String(s))),
            AstV::NumberLiteral(n) => (st, EvalOut::Val(ValueV::Number(n))),
            AstV::Nil => (st, EvalOut::Val(ValueV::Nil)),
            AstV::Identifier(n) => match lookup_var(st, n) {
                Some(v) => (st, EvalOut::Val(v)),
                None => (st, EvalOut::Fail("Undefined variable: "@ + n)),
            },
            AstV::ArrayLiteral(elems) => {
                let (st1, out) = spec_eval_elems(st, elems, f);
                match out {
                    Ok(vs) => (st1, EvalOut::Val(ValueV::Array(vs))),
                    Err(sig) => (st1, sig),
                }
            },
            AstV::DictionaryLiteral(pairs) => {
                let (st1, out) = spec_eval_pairs(st, pairs, Seq::empty(), f);
                match out {
                    Ok(m) => (st1, EvalOut::Val(ValueV::Dictionary(m))),
                    Err(sig) => (st1, sig),
                }
            },
            AstV::IndexExpression(coll, idx) => {
                let (st1, cout) = spec_eval(st, *coll, f);
                match cout {
                    EvalOut::Val(cv) => {
                        let (st2, iout) = spec_eval(st1, *idx, f);
                        match iout {
                            EvalOut::Val(iv) => match (cv, iv) {
                                (ValueV::Array(arr), ValueV::Number(i)) => {
                                    if 0 <= i < arr.len() {
                                        (st2, EvalOut::Val(arr[i as int]))
                                    } else {
                                        (
                                            st2,
                                            EvalOut::Fail(
                                                "Array index "@ + crate::value::dec_str(i as int)
                                                    + " out of bounds"@,
                                            ),
                                        )
                                    }
                                },
                                (ValueV::Dictionary(d), ValueV::String(k)) => match assoc_get(
                                    d,
                                    k,
                                ) {
                                    Some(v) => (st2, EvalOut::Val(v)),
                                    None => (
                                        st2,
                                        EvalOut::Fail(
                                            "Key '"@ + k + "' not found in dictionary"@,
                                        ),
                                    ),
                                },
                                _ => (
                                    st2,
                                    EvalOut::Fail(
                                        "Indexing error: expected array or dictionary with correct key type"@,
                                    ),
                                ),
                            },
                            _ => (st2, iout),
                        }
                    },
                    _ => (st1, cout),
                }
            },
            AstV::IfStatement { condition, consequence, alternative } => {
                let (st1, cout) = spec_eval(st, *condition, f);
                match cout {
                    EvalOut::Val(cv) => match truthy_spec(cv) {
                        Some(true) => spec_eval(st1, *consequence, f),
                        Some(false) => match alternative {
                            Some(alt) => spec_eval(st1, *alt, f),
                            None => (st1, EvalOut::Val(ValueV::Number(0i64))),
                        },
                        None => (st1, EvalOut::Fail("Cannot convert value to boolean"@)),
                    },
                    _ => (st1, cout),
                }
            },
            AstV::WhileStatement { condition, body } => {
                let (st1, cout) = spec_eval(st, *condition, f);
                match cout {
                    EvalOut::Val(cv) => match truthy_spec(cv) {
                        Some(true) => {
                            let (st2, bout) = spec_eval(st1, *body, f);
                            match bout {
                                EvalOut::Val(_) => spec_eval(st2, node, f),
                                EvalOut::Brk => (st2, EvalOut::Val(ValueV::Number(0i64))),
                                _ => (st2, bout),
                            }
                        },
                        Some(false) => (st1, EvalOut::Val(ValueV::Number(0i64))),
                        None => (st1, EvalOut::Fail("Cannot convert value to boolean"@)),
                    },
                    _ => (st1, cout),
                }
            },
            AstV::Break => (st, EvalOut::Brk),
            AstV::FunctionDeclaration { name, params, body } => {
                let fv = ValueV::Function { name, params, body };
                (set_var_st(st, name, fv), EvalOut::Val(fv))
            },
            AstV::FunctionCall { function, arguments } => {
                let (st1, fout) = spec_eval(st, *function, f);
                match fout {
                    EvalOut::Val(fv) => match fv {
                        ValueV::Function { name, params, body } => {
                            let (st2, bound) = spec_bind(push_st(st1), params, arguments, f);
                            match bound {
                                Err(sig) => (pop_st(st2), sig),
                                Ok(_) => {
                                    let (st3, bout) = spec_eval(st2, *body, f);
                                    match bout {
                                        EvalOut::Val(v) => (pop_st(st3), EvalOut::Val(v)),
                                        EvalOut::Ret(v) => (pop_st(st3), EvalOut::Val(v)),
                                        _ => (pop_st(st3), bout),
                                    }
                                },
                            }
                        },
                        _ => (st1, EvalOut::Fail("Not a function"@)),
                    },
                    _ => (st1, fout),
                }
            },
            AstV::Return(e) => match e {
                Some(x) => {
                    let (st1, out) = spec_eval(st, *x, f);
                    match out {
                        EvalOut::Val(v) => (st1, EvalOut::Ret(v)),
                        _ => (st1, out),
                    }
                },
                None => (st, EvalOut::Ret(ValueV::Nil)),
            },
        }
    }
}

/// Evaluates a statement list in order: the value of the last statement,
/// or zero with none; signals and errors stop the list.
pub open spec fn spec_eval_stmts(st: StateV, stmts: Seq<AstV>, fuel: nat) -> (StateV, EvalOut)
    decreases fuel,
{
    if fuel == 0 {
        (st, EvalOut::Spent)
    } else if stmts.len() == 0 {
        (st, EvalOut::Val(ValueV::Number(0i64)))
    } else {
        let (st1, out) = spec_eval(st, stmts[0], (fuel - 1) as nat);
        match out {
            EvalOut::Val(v) => {
                if stmts.len() == 1 {
                    (st1, EvalOut::Val(v))
                } else {
                    spec_eval_stmts(st1, stmts.drop_first(), (fuel - 1) as nat)
                }
            },
            _ => (st1, out),
        }
    }
}

/// Evaluates expressions in order, collecting their values; signals and
/// errors stop the list.
pub open spec fn spec_eval_elems(st: StateV, elems: Seq<AstV>, fuel: nat) -> (
    StateV,
    Result<Seq<ValueV>, EvalOut>,
)
    decreases fuel,
{
    if fuel == 0 {
        (st, Err(EvalOut::Spent))
    } else if elems.len() == 0 {
        (st, Ok(Seq::empty()))
    } else {
        let (st1, out) = spec_eval(st, elems[0], (fuel - 1) as nat);
        match out {
            EvalOut::Val(v) => {
                let (st2, rest) = spec_eval_elems(st1, elems.drop_first(), (fuel - 1) as nat);
                match rest {
                    Ok(vs) => (st2, Ok(seq![v] + vs)),
                    Err(sig) => (st2, Err(sig)),
                }
            },
            _ => (st1, Err(out)),
        }
    }
}

/// Evaluates dictionary entries in order, inserting each into the
/// accumulated mapping (a repeated key replaces its first binding).
pub open spec fn spec_eval_pairs(
    st: StateV,
    pairs: Seq<(Seq<char>, AstV)>,
    acc: Seq<(Seq<char>, ValueV)>,
    fuel: nat,
) -> (StateV, Result<Seq<(Seq<char>, ValueV)>, EvalOut>)
    decreases fuel,
{
    if fuel == 0 {
        (st, Err(EvalOut::Spent))
    } else if pairs.len() == 0 {
        (st, Ok(acc))
    } else {
        let (st1, out) = spec_eval(st, pairs[0].1, (fuel - 1) as nat);
        match out {
            EvalOut::Val(v) => spec_eval_pairs(
                st1,
                pairs.drop_first(),
                assoc_set(acc, pairs[0].0, v),
                (fuel - 1) as nat,
            ),
            _ => (st1, Err(out)),
        }
    }
}

/// Binds parameters to evaluated arguments in order, stopping at the
/// shorter list: extra arguments are not evaluated, extra parameters stay
/// unbound. Signals and errors stop the binding.
pub open spec fn spec_bind(
    st: StateV,
    params: Seq<Seq<char>>,
    args: Seq<AstV>,
    fuel: nat,
) -> (StateV, Result<(), EvalOut>)
    decreases fuel,
{
    if fuel == 0 {
        (st, Err(EvalOut::Spent))
    } else if params.len() == 0 || args.len() == 0 {
        (st, Ok(()))
    } else {
        let (st1, out) = spec_eval(st, args[0], (fuel - 1) as nat);
        match out {
            EvalOut::Val(v) => spec_bind(
                set_var_st(st1, params[0], v),
                params.drop_first(),
                args.drop_first(),
                (fuel - 1) as nat,
            ),
            _ => (st1, Err(out)),
        }
    }
}

/// The models of a list of names, elementwise.
pub open spec fn names_view(v: Vec<String>) -> Seq<Seq<char>> {
    Seq::new(v@.len(), |i: int| v@[i]@)
}

/// The models of a list of output lines, elementwise.
pub open spec fn lines_view(v: Vec<String>) -> Seq<Seq<char>> {
    Seq::new(v@.len(), |i: int| v@[i]@)
}

/// The models of the scope stack, framewise.
pub open spec fn scopes_view(v: Vec<Vec<(String, Value)>>) -> Seq<Seq<(Seq<char>, ValueV)>> {
    Seq::new(v@.len(), |i: int| entries_view(v@[i]))
}

/// Whether an error result matches a non-value outcome.
pub open spec fn sig_matches(e: InterpreterError, out: EvalOut) -> bool {
    match out {
        EvalOut::Val(_) => false,
        EvalOut::Brk => e is Break,
        EvalOut::Ret(v) => e matches InterpreterError::Return(x) && x@ == v,
        EvalOut::Fail(m) => e matches InterpreterError::Error(s) && s@ == m,
        EvalOut::Spent => e matches InterpreterError::Error(s) && s@
            == "Evaluation budget exhausted"@,
    }
}

/// Whether an evaluation result matches an outcome.
pub open spec fn out_matches(r: Result<Value, InterpreterError>, out: EvalOut) -> bool {
    match out {
        EvalOut::Val(v) => r matches Ok(x) && x@ == v,
        _ => r matches Err(e) && sig_matches(e, out),
    }
}

/// The first binding of a key sits at the first index holding that key.
proof fn lemma_assoc_get_at(s: Seq<(Seq<char>, ValueV)>, k: Seq<char>, i: int)
    requires
        0 <= i < s.len(),
        s[i].0 == k,
        forall|j: int| 0 <= j < i ==> (#[trigger] s[j]).0 != k,
    ensures
        assoc_get(s, k) == Some(s[i].1),
    decreases i,
{
    if i > 0 {
        lemma_assoc_get_at(s.drop_first(), k, i - 1);
    }
}

/// A key held by no pair has no binding.
proof fn lemma_assoc_get_absent(s: Seq<(Seq<char>, ValueV)>, k: Seq<char>)
    requires
        forall|j: int| 0 <= j < s.len() ==> (#[trigger] s[j]).0 != k,
    ensures
        assoc_get(s, k) is None,
    decreases s,
{
    if s.len() > 0 {
        lemma_assoc_get_absent(s.drop_first(), k);
    }
}

/// Setting a key replaces the pair at its first index.
proof fn lemma_assoc_set_at(s: Seq<(Seq<char>, ValueV)>, k: Seq<char>, v: ValueV, i: int)
    requires
        0 <= i < s.len(),
        s[i].0 == k,
        forall|j: int| 0 <= j < i ==> (#[trigger] s[j]).0 != k,
    ensures
        assoc_set(s, k, v) == s.update(i, (k, v)),
    decreases i,
{
    if i == 0 {
        assert(assoc_set(s, k, v) =~= s.update(0, (k, v)));
    } else {
        lemma_assoc_set_at(s.drop_first(), k, v, i - 1);
        assert(seq![s[0]] + s.drop_first().update(i - 1, (k, v)) =~= s.update(i, (k, v)));
    }
}

/// Setting an absent key appends the pair.
proof fn lemma_assoc_set_absent(s: Seq<(Seq<char>, ValueV)>, k: Seq<char>, v: ValueV)
    requires
        forall|j: int| 0 <= j < s.len() ==> (#[trigger] s[j]).0 != k,
    ensures
        assoc_set(s, k, v) == s.push((k, v)),
    decreases s,
{
    if s.len() == 0 {
        assert(assoc_set(s, k, v) =~= s.push((k, v)));
    } else {
        lemma_assoc_set_absent(s.drop_first(), k, v);
        assert(seq![s[0]] + s.drop_first().push((k, v)) =~= s.push((k, v)));
    }
}

/// With every frame past `j` lacking the name and frame `j` binding it,
/// reading finds frame `j`'s binding and the scope-chain write updates
/// exactly frame `j`.
proof fn lemma_scopes_found(
    scopes: Seq<Seq<(Seq<char>, ValueV)>>,
    n: Seq<char>,
    v: ValueV,
    j: int,
)
    requires
        0 <= j < scopes.len(),
        assoc_get(scopes[j], n) is Some,
        forall|jj: int| j < jj < scopes.len() ==> assoc_get(#[trigger] scopes[jj], n) is None,
    ensures
        scopes_get(scopes, n) == assoc_get(scopes[j], n),
        scopes_update(scopes, n, v) == scopes.update(j, assoc_set(scopes[j], n, v)),
    decreases scopes,
{
    if j == scopes.len() - 1 {
        assert(scopes.drop_last().push(assoc_set(scopes.last(), n, v)) =~= scopes.update(
            j,
            assoc_set(scopes[j], n, v),
        ));
    } else {
        lemma_scopes_found(scopes.drop_last(), n, v, j);
        assert(scopes.drop_last().update(j, assoc_set(scopes[j], n, v)).push(scopes.last())
            =~= scopes.update(j, assoc_set(scopes[j], n, v)));
    }
}

/// With every frame at or past `i` lacking the name, reading the stack is
/// reading its first `i` frames.
proof fn lemma_scopes_prefix(scopes: Seq<Seq<(Seq<char>, ValueV)>>, n: Seq<char>, i: int)
    requires
        0 <= i <= scopes.len(),
        forall|jj: int| i <= jj < scopes.len() ==> assoc_get(#[trigger] scopes[jj], n) is None,
    ensures
        scopes_get(scopes, n) == scopes_get(scopes.subrange(0, i), n),
    decreases scopes.len() - i,
{
    if i == scopes.len() {
        assert(scopes.subrange(0, i) =~= scopes);
    } else {
        assert(scopes.drop_last() =~= scopes.subrange(0, scopes.len() - 1));
        lemma_scopes_prefix(scopes.subrange(0, scopes.len() - 1), n, i);
        assert(scopes.subrange(0, scopes.len() - 1).subrange(0, i) =~= scopes.subrange(0, i));
    }
}

/// Looks a name up in one frame: its first binding, cloned.
#[verifier::loop_isolation(false)]
fn frame_lookup(frame: &Vec<(String, Value)>, key: &String) -> (r: Option<Value>)
    ensures
        match assoc_get(entries_view(*frame), key@) {
            Some(v) => r matches Some(x) && x@ == v,
            None => r is None,
        },
{
    let mut i: usize = 0;
    while i < frame.len()
        invariant
            i <= frame.len(),
            forall|j: int| 0 <= j < i ==> (#[trigger] entries_view(*frame)[j]).0 != key@,
        decreases frame.len() - i,
    {
        if frame[i].0 == *key {
            proof {
                lemma_assoc_get_at(entries_view(*frame), key@, i as int);
            }
            return Some(frame[i].1.clone());
        }
        i = i + 1;
    }
    proof {
        lemma_assoc_get_absent(entries_view(*frame), key@);
    }
    None
}

/// Whether one frame binds a name.
#[verifier::loop_isolation(false)]
fn frame_has(frame: &Vec<(String, Value)>, key: &String) -> (r: bool)
    ensures
        r == (assoc_get(entries_view(*frame), key@) is Some),
{
    let mut i: usize = 0;
    while i < frame.len()
        invariant
            i <= frame.len(),
            forall|j: int| 0 <= j < i ==> (#[trigger] entries_view(*frame)[j]).0 != key@,
        decreases frame.len() - i,
    {
        if frame[i].0 == *key {
            proof {
                lemma_assoc_get_at(entries_view(*frame), key@, i as int);
            }
            return true;
        }
        i = i + 1;
    }
    proof {
        lemma_assoc_get_absent(entries_view(*frame), key@);
    }
    false
}

/// Binds a name in one frame: replaces its first binding, or appends one.
#[verifier::loop_isolation(false)]
fn frame_set(frame: &mut Vec<(String, Value)>, key: String, value: Value)
    ensures
        entries_view(*final(frame)) == assoc_set(entries_view(*old(frame)), key@, value@),
{
    let mut i: usize = 0;
    while i < frame.len()
        invariant
            *frame == *old(frame),
            i <= frame.len(),
            forall|j: int| 0 <= j < i ==> (#[trigger] entries_view(*frame)[j]).0 != key@,
        decreases frame.len() - i,
    {
        if frame[i].0 == *(&key) {
            proof {
                lemma_assoc_set_at(entries_view(*frame), key@, value@, i as int);
            }
            frame.remove(i);
            frame.insert(i, (key, value));
            proof {
                assert(entries_view(*frame) =~= assoc_set(
                    entries_view(*old(frame)),
                    key@,
                    value@,
                ));
            }
            return;
        }
        i = i + 1;
    }
    proof {
        lemma_assoc_get_absent(entries_view(*frame), key@);
        lemma_assoc_set_absent(entries_view(*frame), key@, value@);
    }
    frame.push((key, value));
    proof {
        assert(entries_view(*frame) =~= assoc_set(entries_view(*old(frame)), key@, value@));
    }
}

/// One interpreter: the global bindings, the scope stack grown by one frame
/// per function call, and the lines printed so far. One instance persists
/// across incremental evaluations, which is how an interactive session
/// keeps its variables.
pub struct Interpreter {
    /// The global map: the target of every declaration
    pub variables: Vec<(String, Value)>,
    scopes: Vec<Vec<(String, Value)>>,
    out: Vec<String>,
}

impl View for Interpreter {
    type V = StateV;

    closed spec fn view(&self) -> StateV {
        StateV {
            globals: entries_view(self.variables),
            scopes: scopes_view(self.scopes),
            output: lines_view(self.out),
        }
    }
}

impl Interpreter {
    /// Makes a fresh interpreter: no globals, one empty scope frame, no
    /// output.
    pub fn new() -> (r: Interpreter)
        ensures
            r@ == init_state(),
    {
        let mut scopes: Vec<Vec<(String, Value)>> = Vec::new();
        scopes.push(Vec::new());
        let r = Interpreter { variables: Vec::new(), scopes, out: Vec::new() };
        proof {
            assert(r@.globals =~= init_state().globals);
            assert(entries_view(r.scopes@[0]) =~= Seq::<(Seq<char>, ValueV)>::empty());
            assert(r@.scopes =~= init_state().scopes);
            assert(r@.output =~= init_state().output);
        }
        r
    }

    /// The lines printed so far, oldest first; clears the buffer.
    pub fn take_output(&mut self) -> (r: Vec<String>)
        ensures
            lines_view(r) == old(self)@.output,
            final(self)@ == (StateV { output: Seq::empty(), ..old(self)@ }),
    {
        let mut out: Vec<String> = Vec::new();
        core::mem::swap(&mut out, &mut self.out);
        proof {
            assert(lines_view(self.out) =~= Seq::<Seq<char>>::empty());
        }
        out
    }

    /// Converts a condition value: booleans and the exact strings `true`
    /// and `false` are valid; anything else is an error.
    pub fn is_truthy(&self, value: &Value) -> (r: Result<bool, InterpreterError>)
        ensures
            match truthy_spec(value@) {
                Some(b) => r matches Ok(x) && x == b,
                None => r matches Err(e) && (e matches InterpreterError::Error(s) && s@
                    == "Cannot convert value to boolean"@),
            },
    {
        match value {
            Value::Bool(b) => Ok(*b),
            Value::String(s) => {
                let t = str_to_string("true");
                let f = str_to_string("false");
                if *s == t {
                    Ok(true)
                } else if *s == f {
                    Ok(false)
                } else {
                    Err(InterpreterError::Error(str_to_string("Cannot convert value to boolean")))
                }
            },
            _ => Err(InterpreterError::Error(str_to_string("Cannot convert value to boolean"))),
        }
    }

    /// Pushes one fresh scope frame.
    pub fn push_scope(&mut self)
        ensures
            final(self)@ == push_st(old(self)@),
    {
        self.scopes.push(Vec::new());
        proof {
            assert(entries_view(self.scopes@[self.scopes@.len() - 1]) =~= Seq::<
                (Seq<char>, ValueV),
            >::empty());
            assert(self@.scopes =~= push_st(old(self)@).scopes);
        }
    }

    /// Pops the innermost scope frame; with none, does nothing.
    pub fn pop_scope(&mut self)
        ensures
            final(self)@ == pop_st(old(self)@),
    {
        if self.scopes.len() > 0 {
            self.scopes.pop();
            proof {
                assert(self@.scopes =~= pop_st(old(self)@).scopes);
            }
        }
    }

    /// Writes through the scope chain: overwrites the innermost existing
    /// binding; with none, writes the innermost frame, or the global map
    /// when the stack is empty.
    #[verifier::loop_isolation(false)]
    pub fn set_variable(&mut self, name: String, value: Value)
        ensures
            final(self)@ == set_var_st(old(self)@, name@, value@),
    {
        let ghost st0 = self@;
        let mut i: usize = self.scopes.len();
        while i > 0
            invariant
                *self == *old(self),
                i <= self.scopes.len(),
                forall|jj: int| i <= jj < self.scopes@.len() ==> assoc_get(
                    #[trigger] scopes_view(self.scopes)[jj],
                    name@,
                ) is None,
            decreases i,
        {
            if frame_has(&self.scopes[i - 1], &name) {
                proof {
                    lemma_scopes_found(st0.scopes, name@, value@, i - 1 as int);
                }
                let mut fr = self.scopes.remove(i - 1);
                frame_set(&mut fr, name, value);
                self.scopes.insert(i - 1, fr);
                proof {
                    assert(self@.scopes =~= st0.scopes.update(
                        i - 1 as int,
                        assoc_set(st0.scopes[i - 1 as int], name@, value@),
                    ));
                    assert(self@.globals =~= st0.globals);
                    assert(self@.output =~= st0.output);
                }
                return;
            }
            i = i - 1;
        }
        proof {
            lemma_scopes_prefix(st0.scopes, name@, 0);
            assert(st0.scopes.subrange(0, 0) =~= Seq::<Seq<(Seq<char>, ValueV)>>::empty());
            assert(!scopes_has(st0.scopes, name@));
        }
        if self.scopes.len() > 0 {
            let j = self.scopes.len() - 1;
            let mut fr = self.scopes.remove(j);
            frame_set(&mut fr, name, value);
            self.scopes.insert(j, fr);
            proof {
                assert(self@.scopes =~= st0.scopes.drop_last().push(
                    assoc_set(st0.scopes.last(), name@, value@),
                ));
                assert(self@.globals =~= st0.globals);
                assert(self@.output =~= st0.output);
            }
        } else {
            frame_set(&mut self.variables, name, value);
            proof {
                assert(self@.scopes =~= st0.scopes);
                assert(self@.output =~= st0.output);
            }
        }
    }

    /// Reads a name: the scope stack innermost to outermost, then the
    /// global map; the found value is cloned.
    #[verifier::loop_isolation(false)]
    pub fn get_variable(&self, name: &String) -> (r: Option<Value>)
        ensures
            match lookup_var(self@, name@) {
                Some(v) => r matches Some(x) && x@ == v,
                None => r is None,
            },
    {
        let mut i: usize = self.scopes.len();
        while i > 0
            invariant
                i <= self.scopes.len(),
                forall|jj: int| i <= jj < self.scopes@.len() ==> assoc_get(
                    #[trigger] scopes_view(self.scopes)[jj],
                    name@,
                ) is None,
            decreases i,
        {
            let found = frame_lookup(&self.scopes[i - 1], name);
            if found.is_some() {
                proof {
                    lemma_scopes_prefix(self@.scopes, name@, i as int);
                    lemma_scopes_found(
                        self@.scopes.subrange(0, i as int),
                        name@,
                        ValueV::Nil,
                        i - 1 as int,
                    );
                    assert(self@.scopes.subrange(0, i as int)[i - 1 as int] == scopes_view(
                        self.scopes,
                    )[i - 1 as int]);
                }
                return found;
            }
            i = i - 1;
        }
        proof {
            lemma_scopes_prefix(self@.scopes, name@, 0);
            assert(self@.scopes.subrange(0, 0) =~= Seq::<Seq<(Seq<char>, ValueV)>>::empty());
        }
        frame_lookup(&self.variables, name)
    }
}

/// Applies a binary operator to two evaluated operands.
fn apply_binary(op: &Token, lv: &Value, rv: &Value) -> (r: Result<Value, String>)
    ensures
        match bin_op_spec(op@, lv@, rv@) {
            Ok(v) => r matches Ok(x) && x@ == v,
            Err(m) => r matches Err(s) && s@ == m,
        },
{
    match op {
        Token::Plus => lv.add(rv),
        Token::Minus => lv.sub(rv),
        Token::Multiply => lv.mul(rv),
        Token::Divide => {
            let zero = Value::Number(0);
            if values_equal(rv, &zero) {
                Err(str_to_string("Division by zero"))
            } else {
                proof {
                    assert(!lang_eq(rv@, ValueV::Number(0i64)));
                    assert(rv@ != ValueV::Number(0i64));
                }
                lv.div(rv)
            }
        },
        Token::Equal => {
            let eq = values_equal(lv, rv);
            if eq {
                Ok(Value::String(str_to_string("true")))
            } else {
                Ok(Value::String(str_to_string("false")))
            }
        },
        Token::LessThan => match lv {
            Value::Number(a) => match rv {
                Value::Number(b) => {
                    if *a < *b {
                        Ok(Value::String(str_to_string("true")))
                    } else {
                        Ok(Value::String(str_to_string("false")))
                    }
                },
                _ => Err(str_to_string("Cannot compare non-numeric values with <")),
            },
            _ => Err(str_to_string("Cannot compare non-numeric values with <")),
        },
        Token::GreaterThan => match lv {
            Value::Number(a) => match rv {
                Value::Number(b) => {
                    if *a > *b {
                        Ok(Value::String(str_to_string("true")))
                    } else {
                        Ok(Value::String(str_to_string("false")))
                    }
                },
                _ => Err(str_to_string("Cannot compare non-numeric values with >")),
            },
            _ => Err(str_to_string("Cannot compare non-numeric values with >")),
        },
        Token::And => match lv {
            Value::Bool(a) => match rv {
                Value::Bool(b) => Ok(Value::Bool(*a && *b)),
                _ => Err(str_to_string("Cannot apply `and` to non-boolean values")),
            },
            Value::String(ls) => match rv {
                Value::String(rs) => {
                    let t = str_to_string("true");
                    let f = str_to_string("false");
                    if (*ls == t || *ls == f) && (*rs == t || *rs == f) {
                        let a = *ls == t;
                        let b = *rs == t;
                        Ok(Value::Bool(a && b))
                    } else {
                        Err(str_to_string("Cannot apply `and` to non-boolean values"))
                    }
                },
                _ => Err(str_to_string("Cannot apply `and` to non-boolean values")),
            },
            _ => Err(str_to_string("Cannot apply `and` to non-boolean values")),
        },
        Token::Or => match lv {
            Value::Bool(a) => match rv {
                Value::Bool(b) => Ok(Value::Bool(*a || *b)),
                _ => Err(str_to_string("Cannot apply `or` to non-boolean values")),
            },
            Value::String(ls) => match rv {
                Value::String(rs) => {
                    let t = str_to_string("true");
                    let f = str_to_string("false");
                    if (*ls == t || *ls == f) && (*rs == t || *rs == f) {
                        let a = *ls == t;
                        let b = *rs == t;
                        Ok(Value::Bool(a || b))
                    } else {
                        Err(str_to_string("Cannot apply `or` to non-boolean values"))
                    }
                },
                _ => Err(str_to_string("Cannot apply `or` to non-boolean values")),
            },
            _ => Err(str_to_string("Cannot apply `or` to non-boolean values")),
        },
        _ => Err(str_to_string("Unsupported operator")),
    }
}

impl Interpreter {
    /// Appends one printed line to the output.
    fn push_output(&mut self, line: String)
        ensures
            final(self)@ == out_st(old(self)@, line@),
    {
        self.out.push(line);
        proof {
            assert(self@.output =~= out_st(old(self)@, line@).output);
        }
    }

    /// Evaluates one node against this state, following [`spec_eval`]
    /// exactly: the result is the node's value, or the signal or error that
    /// came out of it, and the state changes to the semantics' state. The
    /// fuel bounds the loop iterations and calls taken together; running
    /// out of it is an error.
    #[verifier::rlimit(100)]
    #[verifier::spinoff_prover]
    pub fn evaluate(&mut self, node: &AstNode, fuel: u64) -> (r: Result<Value, InterpreterError>)
        ensures
            ({
                let (st2, out) = spec_eval(old(self)@, node@, fuel as nat);
                final(self)@ == st2 && out_matches(r, out)
            }),
        decreases fuel,
    {
        if fuel == 0 {
            return Err(InterpreterError::Error(str_to_string("Evaluation budget exhausted")));
        }
        match node {
            AstNode::Program(stmts) => {
                proof {
                    assert(crate::ast::asts_view(*stmts).skip(0) =~= crate::ast::asts_view(
                        *stmts,
                    ));
                }
                let r = self.eval_stmts_from(stmts, 0, fuel - 1);
                match r {
                    Err(InterpreterError::Break) => Err(
                        InterpreterError::Error(
                            str_to_string("Break statement outside of loop"),
                        ),
                    ),
                    other => other,
                }
            },
            AstNode::Block(stmts) => {
                proof {
                    assert(crate::ast::asts_view(*stmts).skip(0) =~= crate::ast::asts_view(
                        *stmts,
                    ));
                }
                self.eval_stmts_from(stmts, 0, fuel - 1)
            },
            AstNode::VariableDeclaration { name, value } => {
                let v = self.evaluate(&**value, fuel - 1)?;
                frame_set(&mut self.variables, name.clone(), v.clone());
                Ok(v)
            },
            AstNode::PrintStatement(e) => {
                let v = self.evaluate(&**e, fuel - 1)?;
                if matches!(v, Value::Nil) {
                    Ok(Value::Number(0))
                } else {
                    match v.render() {
                        Some(line) => {
                            self.push_output(line);
                            Ok(Value::Number(0))
                        },
                        None => Err(
                            InterpreterError::Error(str_to_string("Cannot display this value")),
                        ),
                    }
                }
            },
            AstNode::BinaryExpression { left, operator, right } => {
                let lv = self.evaluate(&**left, fuel - 1)?;
                let rv = self.evaluate(&**right, fuel - 1)?;
                match apply_binary(operator, &lv, &rv) {
                    Ok(v) => Ok(v),
                    Err(msg) => Err(InterpreterError::Error(msg)),
                }
            },
            AstNode::Bool(b) => Ok(Value::Bool(*b)),
            AstNode::StringLiteral(s) => Ok(Value::String(s.clone())),
            AstNode::NumberLiteral(n) => Ok(Value::Number(*n)),
            AstNode::Nil => Ok(Value::Nil),
            AstNode::Identifier(name) => match self.get_variable(name) {
                Some(v) => Ok(v),
                None => {
                    let mut m = str_to_string("Undefined variable: ");
                    m.append(name.as_str());
                    Err(InterpreterError::Error(m))
                },
            },
            AstNode::ArrayLiteral(elems) => {
                proof {
                    assert(crate::ast::asts_view(*elems).skip(0) =~= crate::ast::asts_view(
                        *elems,
                    ));
                }
                let vs = self.eval_elems_from(elems, 0, fuel - 1)?;
                Ok(Value::Array(vs))
            },
            AstNode::DictionaryLiteral(pairs) => {
                let acc: Vec<(String, Value)> = Vec::new();
                proof {
                    assert(entries_view(acc) =~= Seq::<(Seq<char>, ValueV)>::empty());
                }
                proof {
                    assert(crate::ast::pairs_view(*pairs).skip(0) =~= crate::ast::pairs_view(
                        *pairs,
                    ));
                }
                let m = self.eval_pairs_from(pairs, 0, acc, fuel - 1)?;
                Ok(Value::Dictionary(m))
            },
            AstNode::IndexExpression(coll, idx) => {
                let cv = self.evaluate(&**coll, fuel - 1)?;
                let iv = self.evaluate(&**idx, fuel - 1)?;
                match cv {
                    Value::Array(arr) => match iv {
                        Value::Number(i) => {
                            if i < 0 || (i as u64) >= (arr.len() as u64) {
                                let mut m = str_to_string("Array index ");
                                let d = crate::value::to_decimal(i);
                                m.append(d.as_str());
                                m.append(" out of bounds");
                                Err(InterpreterError::Error(m))
                            } else {
                                proof {
                                    assert((i as int) < arr@.len());
                                    assert(values_view(arr)[i as int] == value_view(
                                        arr@[i as int],
                                    ));
                                }
                                Ok(arr[i as usize].clone())
                            }
                        },
                        _ => Err(
                            InterpreterError::Error(
                                str_to_string(
                                    "Indexing error: expected array or dictionary with correct key type",
                                ),
                            ),
                        ),
                    },
                    Value::Dictionary(d) => match iv {
                        Value::String(key) => match frame_lookup(&d, &key) {
                            Some(v) => Ok(v),
                            None => {
                                let mut m = str_to_string("Key '");
                                m.append(key.as_str());
                                m.append("' not found in dictionary");
                                Err(InterpreterError::Error(m))
                            },
                        },
                        _ => Err(
                            InterpreterError::Error(
                                str_to_string(
                                    "Indexing error: expected array or dictionary with correct key type",
                                ),
                            ),
                        ),
                    },
                    _ => Err(
                        InterpreterError::Error(
                            str_to_string(
                                "Indexing error: expected array or dictionary with correct key type",
                            ),
                        ),
                    ),
                }
            },
            AstNode::IfStatement { condition, consequence, alternative } => {
                let cv = self.evaluate(&**condition, fuel - 1)?;
                let c = self.is_truthy(&cv)?;
                if c {
                    self.evaluate(&**consequence, fuel - 1)
                } else {
                    match alternative {
                        Some(alt) => self.evaluate(&**alt, fuel - 1),
                        None => Ok(Value::Number(0)),
                    }
                }
            },
            AstNode::WhileStatement { condition, body } => {
                let cv = self.evaluate(&**condition, fuel - 1)?;
                let c = self.is_truthy(&cv)?;
                if c {
                    match self.evaluate(&**body, fuel - 1) {
                        Ok(_) => self.evaluate(node, fuel - 1),
                        Err(InterpreterError::Break) => Ok(Value::Number(0)),
                        Err(e) => Err(e),
                    }
                } else {
                    Ok(Value::Number(0))
                }
            },
            AstNode::Break => Err(InterpreterError::Break),
            AstNode::FunctionDeclaration { name, params, body } => {
                let func = Value::Function {
                    name: name.clone(),
                    params: crate::ast::clone_names(params),
                    body: Box::new((**body).clone()),
                };
                proof {
                    assert(names_view(func->Function_params) =~= node@->FunctionDeclaration_params);
                }
                self.set_variable(name.clone(), func.clone());
                Ok(func)
            },
            AstNode::FunctionCall { function, arguments } => {
                let fv = self.evaluate(&**function, fuel - 1)?;
                match fv {
                    Value::Function { name: _, params, body } => {
                        self.push_scope();
                        proof {
                            assert(names_view(params).skip(0) =~= names_view(params));
                            assert(crate::ast::asts_view(*arguments).skip(0)
                                =~= crate::ast::asts_view(*arguments));
                        }
                        match self.bind_from(&params, arguments, 0, fuel - 1) {
                            Err(e) => {
                                self.pop_scope();
                                Err(e)
                            },
                            Ok(_) => {
                                match self.evaluate(&*body, fuel - 1) {
                                    Ok(v) => {
                                        self.pop_scope();
                                        Ok(v)
                                    },
                                    Err(InterpreterError::Return(v)) => {
                                        self.pop_scope();
                                        Ok(v)
                                    },
                                    Err(e) => {
                                        self.pop_scope();
                                        Err(e)
                                    },
                                }
                            },
                        }
                    },
                    _ => Err(InterpreterError::Error(str_to_string("Not a function"))),
                }
            },
            AstNode::Return(e) => match e {
                Some(x) => {
                    let v = self.evaluate(&**x, fuel - 1)?;
                    Err(InterpreterError::Return(v))
                },
                None => Err(InterpreterError::Return(Value::Nil)),
            },
        }
    }

    /// Evaluates the statements from an index on, in order.
    #[verifier::rlimit(100)]
    fn eval_stmts_from(&mut self, stmts: &Vec<AstNode>, i: usize, fuel: u64) -> (r: Result<
        Value,
        InterpreterError,
    >)
        requires
            i <= stmts@.len(),
        ensures
            ({
                let (st2, out) = spec_eval_stmts(
                    old(self)@,
                    crate::ast::asts_view(*stmts).skip(i as int),
                    fuel as nat,
                );
                final(self)@ == st2 && out_matches(r, out)
            }),
        decreases fuel,
    {
        let ghost sv = crate::ast::asts_view(*stmts).skip(i as int);
        if fuel == 0 {
            return Err(InterpreterError::Error(str_to_string("Evaluation budget exhausted")));
        }
        if i == stmts.len() {
            return Ok(Value::Number(0));
        }
        proof {
            assert(sv[0] == crate::ast::ast_view(stmts@[i as int]));
        }
        let v = self.evaluate(&stmts[i], fuel - 1)?;
        if i + 1 == stmts.len() {
            proof {
                assert(sv.len() == 1);
            }
            Ok(v)
        } else {
            proof {
                assert(sv.drop_first() =~= crate::ast::asts_view(*stmts).skip(i + 1 as int));
            }
            self.eval_stmts_from(stmts, i + 1, fuel - 1)
        }
    }

    /// Evaluates the expressions from an index on, collecting their values.
    #[verifier::rlimit(100)]
    fn eval_elems_from(&mut self, elems: &Vec<AstNode>, i: usize, fuel: u64) -> (r: Result<
        Vec<Value>,
        InterpreterError,
    >)
        requires
            i <= elems@.len(),
        ensures
            ({
                let (st2, out) = spec_eval_elems(
                    old(self)@,
                    crate::ast::asts_view(*elems).skip(i as int),
                    fuel as nat,
                );
                final(self)@ == st2 && (match out {
                    Ok(vs) => r matches Ok(xs) && values_view(xs) == vs,
                    Err(sig) => r matches Err(e) && sig_matches(e, sig),
                })
            }),
        decreases fuel,
    {
        let ghost sv = crate::ast::asts_view(*elems).skip(i as int);
        if fuel == 0 {
            return Err(InterpreterError::Error(str_to_string("Evaluation budget exhausted")));
        }
        if i == elems.len() {
            let out: Vec<Value> = Vec::new();
            proof {
                assert(values_view(out) =~= Seq::<ValueV>::empty());
            }
            return Ok(out);
        }
        proof {
            assert(sv[0] == crate::ast::ast_view(elems@[i as int]));
        }
        let v = self.evaluate(&elems[i], fuel - 1)?;
        proof {
            assert(sv.drop_first() =~= crate::ast::asts_view(*elems).skip(i + 1 as int));
        }
        let mut rest = self.eval_elems_from(elems, i + 1, fuel - 1)?;
        rest.insert(0, v);
        proof {
            assert(values_view(rest) =~= seq![value_view(rest@[0])] + values_view(
                rest,
            ).drop_first());
        }
        Ok(rest)
    }

    /// Evaluates dictionary entries from an index on, inserting each into
    /// the accumulated mapping.
    #[verifier::rlimit(100)]
    fn eval_pairs_from(
        &mut self,
        pairs: &Vec<(String, AstNode)>,
        i: usize,
        acc: Vec<(String, Value)>,
        fuel: u64,
    ) -> (r: Result<Vec<(String, Value)>, InterpreterError>)
        requires
            i <= pairs@.len(),
        ensures
            ({
                let (st2, out) = spec_eval_pairs(
                    old(self)@,
                    crate::ast::pairs_view(*pairs).skip(i as int),
                    entries_view(acc),
                    fuel as nat,
                );
                final(self)@ == st2 && (match out {
                    Ok(m) => r matches Ok(xs) && entries_view(xs) == m,
                    Err(sig) => r matches Err(e) && sig_matches(e, sig),
                })
            }),
        decreases fuel,
    {
        let ghost pv = crate::ast::pairs_view(*pairs).skip(i as int);
        if fuel == 0 {
            return Err(InterpreterError::Error(str_to_string("Evaluation budget exhausted")));
        }
        if i == pairs.len() {
            return Ok(acc);
        }
        proof {
            assert(pv[0] == (pairs@[i as int].0@, crate::ast::ast_view(pairs@[i as int].1)));
        }
        let v = self.evaluate(&pairs[i].1, fuel - 1)?;
        let mut acc2 = acc;
        frame_set(&mut acc2, pairs[i].0.clone(), v);
        proof {
            assert(pv.drop_first() =~= crate::ast::pairs_view(*pairs).skip(i + 1 as int));
        }
        self.eval_pairs_from(pairs, i + 1, acc2, fuel - 1)
    }

    /// Binds parameters to evaluated arguments from an index on, stopping
    /// at the shorter list.
    #[verifier::rlimit(100)]
    fn bind_from(&mut self, params: &Vec<String>, args: &Vec<AstNode>, i: usize, fuel: u64) -> (r:
        Result<(), InterpreterError>)
        requires
            i <= params@.len() || i <= args@.len(),
        ensures
            ({
                let (st2, out) = spec_bind(
                    old(self)@,
                    names_view(*params).skip(if i <= params@.len() { i as int } else { params@.len() as int }),
                    crate::ast::asts_view(*args).skip(if i <= args@.len() { i as int } else { args@.len() as int }),
                    fuel as nat,
                );
                final(self)@ == st2 && (match out {
                    Ok(_) => r is Ok,
                    Err(sig) => r matches Err(e) && sig_matches(e, sig),
                })
            }),
        decreases fuel,
    {
        if fuel == 0 {
            return Err(InterpreterError::Error(str_to_string("Evaluation budget exhausted")));
        }
        if i >= params.len() || i >= args.len() {
            return Ok(());
        }
        let ghost psv = names_view(*params).skip(i as int);
        let ghost asv = crate::ast::asts_view(*args).skip(i as int);
        proof {
            assert(asv[0] == crate::ast::ast_view(args@[i as int]));
            assert(psv[0] == params@[i as int]@);
        }
        let v = self.evaluate(&args[i], fuel - 1)?;
        self.set_variable(params[i].clone(), v);
        proof {
            assert(psv.drop_first() =~= names_view(*params).skip(i + 1 as int));
            assert(asv.drop_first() =~= crate::ast::asts_view(*args).skip(i + 1 as int));
        }
        self.bind_from(params, args, i + 1, fuel - 1)
    }
}


/// Setting a key makes it readable with that value.
proof fn lemma_assoc_get_after_set(s: Seq<(Seq<char>, ValueV)>, k: Seq<char>, v: ValueV)
    ensures
        assoc_get(assoc_set(s, k, v), k) == Some(v),
    decreases s,
{
    if s.len() == 0 {
        assert(assoc_set(s, k, v)[0] == (k, v));
    } else if s[0].0 == k {
        assert(assoc_set(s, k, v)[0] == (k, v));
    } else {
        lemma_assoc_get_after_set(s.drop_first(), k, v);
        assert(assoc_set(s, k, v)[0] == s[0]);
        assert(assoc_set(s, k, v).drop_first() =~= assoc_set(s.drop_first(), k, v));
    }
}

/// Scope isolation, one direction: binding a parameter inside a freshly
/// pushed frame does not leak into the caller. When no frame of the stack
/// holds the name, writing it after a push lands in the new frame alone, so
/// popping that frame restores the caller's stack and leaves the globals
/// untouched.
pub proof fn lemma_parameter_binding_does_not_leak(st: StateV, n: Seq<char>, v: ValueV)
    requires
        !scopes_has(st.scopes, n),
    ensures
        pop_st(set_var_st(push_st(st), n, v)).scopes == st.scopes,
        pop_st(set_var_st(push_st(st), n, v)).globals == st.globals,
        pop_st(set_var_st(push_st(st), n, v)).output == st.output,
{
    let pushed = push_st(st);
    assert(pushed.scopes.last() =~= Seq::<(Seq<char>, ValueV)>::empty());
    assert(assoc_get(pushed.scopes.last(), n) is None);
    assert(pushed.scopes.drop_last() =~= st.scopes);
    assert(!scopes_has(pushed.scopes, n));
    let st2 = set_var_st(pushed, n, v);
    assert(st2.scopes.drop_last() =~= st.scopes);
}

/// Scope isolation, the other direction: a declaration (`let`) writes the
/// global map no matter how deep the scope stack is, so the binding stays
/// visible after every frame of the call is popped. With the name bound in
/// no stack frame, reading it finds exactly the declared value.
pub proof fn lemma_declaration_is_global(st: StateV, n: Seq<char>, v: ValueV)
    ensures
        declare_st(st, n, v).scopes == st.scopes,
        declare_st(st, n, v).globals == assoc_set(st.globals, n, v),
        !scopes_has(st.scopes, n) ==> lookup_var(declare_st(st, n, v), n) == Some(v),
{
    lemma_assoc_get_after_set(st.globals, n, v);
}


/// Printing an integer literal: for every 64-bit value, evaluating
/// `print N;` as a program against a fresh state succeeds, and its whole
/// output is the decimal rendering of N.
pub proof fn lemma_print_number_outputs_decimal(n: i64, fuel: nat)
    requires
        fuel >= 4,
    ensures
        ({
            let prog = AstV::Program(
                seq![AstV::PrintStatement(Box::new(AstV::NumberLiteral(n)))],
            );
            let (st, out) = spec_eval(init_state(), prog, fuel);
            out is Val && st.output == seq![crate::value::dec_str(n as int)]
        }),
{
    let st0 = init_state();
    let pn = AstV::NumberLiteral(n);
    let pr = AstV::PrintStatement(Box::new(pn));
    let stmts = seq![pr];
    let prog = AstV::Program(stmts);
    let f1 = (fuel - 1) as nat;
    let f2 = (fuel - 2) as nat;
    let f3 = (fuel - 3) as nat;
    assert(spec_eval(st0, pn, f3) == (st0, EvalOut::Val(ValueV::Number(n))));
    assert(display_spec(ValueV::Number(n)) == Some(crate::value::dec_str(n as int)));
    assert(spec_eval(st0, pr, f2) == (
        out_st(st0, crate::value::dec_str(n as int)),
        EvalOut::Val(ValueV::Number(0i64)),
    ));
    assert(stmts[0] == pr);
    assert(spec_eval_stmts(st0, stmts, f1) == (
        out_st(st0, crate::value::dec_str(n as int)),
        EvalOut::Val(ValueV::Number(0i64)),
    ));
    assert(spec_eval(st0, prog, fuel).0.output =~= seq![crate::value::dec_str(n as int)]);
}


/// Division by zero: for every 64-bit value, evaluating `print N / 0;` as a
/// program against a fresh state is an evaluation error, and nothing is
/// printed.
pub proof fn lemma_division_by_zero_fails_without_output(n: i64, fuel: nat)
    requires
        fuel >= 5,
    ensures
        ({
            let quotient = AstV::BinaryExpression {
                left: Box::new(AstV::NumberLiteral(n)),
                operator: TokenV::Divide,
                right: Box::new(AstV::NumberLiteral(0i64)),
            };
            let prog = AstV::Program(seq![AstV::PrintStatement(Box::new(quotient))]);
            let (st, out) = spec_eval(init_state(), prog, fuel);
            out is Fail && st.output == Seq::<Seq<char>>::empty()
        }),
{
    let st0 = init_state();
    let quotient = AstV::BinaryExpression {
        left: Box::new(AstV::NumberLiteral(n)),
        operator: TokenV::Divide,
        right: Box::new(AstV::NumberLiteral(0i64)),
    };
    let pr = AstV::PrintStatement(Box::new(quotient));
    let stmts = seq![pr];
    let prog = AstV::Program(stmts);
    let f2 = (fuel - 2) as nat;
    let f3 = (fuel - 3) as nat;
    let f4 = (fuel - 4) as nat;
    assert(spec_eval(st0, AstV::NumberLiteral(n), f4) == (st0, EvalOut::Val(ValueV::Number(n))));
    assert(spec_eval(st0, AstV::NumberLiteral(0i64), f4) == (
        st0,
        EvalOut::Val(ValueV::Number(0i64)),
    ));
    assert(bin_op_spec(TokenV::Divide, ValueV::Number(n), ValueV::Number(0i64)) == Err::<
        ValueV,
        Seq<char>,
    >("Division by zero"@));
    assert(spec_eval(st0, quotient, f3) == (st0, EvalOut::Fail("Division by zero"@)));
    assert(spec_eval(st0, pr, f2) == (st0, EvalOut::Fail("Division by zero"@)));
    assert(stmts[0] == pr);
    assert(spec_eval_stmts(st0, stmts, (fuel - 1) as nat) == (
        st0,
        EvalOut::Fail("Division by zero"@),
    ));
    assert(spec_eval(st0, prog, fuel) == (st0, EvalOut::Fail("Division by zero"@)));
}

} // verus!
