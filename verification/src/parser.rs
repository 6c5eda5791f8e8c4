//! The parser: recursive descent over a token sequence, one rule per
//! operator-precedence level, producing the abstract syntax tree.
//!
//! The grammar procedure is specified by the `spec_parse_*` family: fueled
//! functions from a token sequence and a position to the parsed node and the
//! position after it, or to nothing when the input violates the grammar.
//! Fuel falls by one at every recursive step, so the functions are total;
//! the executable parser threads the same fuel and is proved to follow the
//! specification exactly. Parsing aborts at the first violation: there is
//! no recovery.

use vstd::prelude::*;
use crate::ast::{ast_view, asts_view, pairs_view, AstNode, AstV};
use crate::token::{token_eq, Token, TokenV};
use crate::text::chars_to_string;
use crate::value::str_to_string;

verus! {

broadcast use {vstd::std_specs::vec::group_vec_axioms, vstd::seq::group_seq_axioms};

/// The token at a position: `Eof` at or past the end of the sequence.
pub open spec fn cur(toks: Seq<TokenV>, pos: int) -> TokenV {
    if 0 <= pos < toks.len() {
        toks[pos]
    } else {
        TokenV::Eof
    }
}

/// Whether a statement carries its own block, making the semicolon after it
/// optional at the top level.
pub open spec fn ends_in_block(stmt: AstV) -> bool {
    stmt is IfStatement || stmt is WhileStatement || stmt is FunctionDeclaration
}

/// Parses a whole program: statements up to `Eof`, each followed by a
/// mandatory semicolon unless it ends in a block.
pub open spec fn spec_parse_program(toks: Seq<TokenV>, pos: int, fuel: nat) -> Result<(AstV, int), Seq<char>>
    decreases fuel,
{
    if fuel == 0 {
        Err("Program too deeply nested"@)
    } else {
        match spec_parse_program_items(toks, pos, (fuel - 1) as nat) {
            Ok((stmts, p)) => Ok((AstV::Program(stmts), p)),
            Err(m) => Err(m),
        }
    }
}

/// Parses the statement list of a program, up to `Eof`.
pub open spec fn spec_parse_program_items(toks: Seq<TokenV>, pos: int, fuel: nat) -> Result<(Seq<AstV>, int), Seq<char>>
    decreases fuel,
{
    if fuel == 0 {
        Err("Program too deeply nested"@)
    } else if cur(toks, pos) is Eof {
        Ok((Seq::empty(), pos))
    } else if cur(toks, pos) is Semicolon {
        spec_parse_program_items(toks, pos + 1, (fuel - 1) as nat)
    } else {
        match spec_parse_statement(toks, pos, (fuel - 1) as nat) {
            Err(m) => Err(m),
            Ok((stmt, p1)) => {
                if ends_in_block(stmt) {
                    let p2 = if cur(toks, p1) is Semicolon {
                        p1 + 1
                    } else {
                        p1
                    };
                    match spec_parse_program_items(toks, p2, (fuel - 1) as nat) {
                        Err(m) => Err(m),
                        Ok((rest, p3)) => Ok((seq![stmt] + rest, p3)),
                    }
                } else if cur(toks, p1) is Semicolon {
                    match spec_parse_program_items(toks, p1 + 1, (fuel - 1) as nat) {
                        Err(m) => Err(m),
                        Ok((rest, p3)) => Ok((seq![stmt] + rest, p3)),
                    }
                } else {
                    Err("Expected Semicolon, but found "@ + describe_spec(cur(toks, p1)))
                }
            },
        }
    }
}

/// Parses one statement, dispatched on its first token.
pub open spec fn spec_parse_statement(toks: Seq<TokenV>, pos: int, fuel: nat) -> Result<(AstV, int), Seq<char>>
    decreases fuel,
{
    if fuel == 0 {
        Err("Statement too deeply nested"@)
    } else {
        match cur(toks, pos) {
            TokenV::Let => match cur(toks, pos + 1) {
                TokenV::Identifier(name) => {
                    if cur(toks, pos + 2) is Assign {
                        match spec_parse_expression(toks, pos + 3, (fuel - 1) as nat) {
                            Ok((value, p)) => Ok(
                                (
                                    AstV::VariableDeclaration { name, value: Box::new(value) },
                                    p,
                                ),
                            ),
                            Err(m) => Err(m),
                        }
                    } else {
                        Err(
                            "Expected '=' after identifier in let statement, found "@
                                + describe_spec(cur(toks, pos + 2)),
                        )
                    }
                },
                _ => Err(
                    "Expected identifier after 'let', found "@ + describe_spec(
                        cur(toks, pos + 1),
                    ),
                ),
            },
            TokenV::Identifier(name) => {
                if cur(toks, pos + 1) is Assign {
                    match spec_parse_expression(toks, pos + 2, (fuel - 1) as nat) {
                        Ok((value, p)) => Ok(
                            (AstV::VariableDeclaration { name, value: Box::new(value) }, p),
                        ),
                        Err(m) => Err(m),
                    }
                } else {
                    spec_parse_expression(toks, pos, (fuel - 1) as nat)
                }
            },
            TokenV::Print => match spec_parse_expression(toks, pos + 1, (fuel - 1) as nat) {
                Ok((e, p)) => Ok((AstV::PrintStatement(Box::new(e)), p)),
                Err(m) => Err(m),
            },
            TokenV::If => spec_parse_if(toks, pos, (fuel - 1) as nat),
            TokenV::While => spec_parse_while(toks, pos, (fuel - 1) as nat),
            TokenV::Break => Ok((AstV::Break, pos + 1)),
            TokenV::Func => spec_parse_func(toks, pos, (fuel - 1) as nat),
            TokenV::Return => spec_parse_return(toks, pos, (fuel - 1) as nat),
            _ => {
                if starts_factor(cur(toks, pos)) {
                    spec_parse_expression(toks, pos, (fuel - 1) as nat)
                } else {
                    Err(
                        "Unexpected token in statement: "@ + describe_spec(cur(toks, pos)),
                    )
                }
            },
        }
    }
}

/// Parses an expression: the lowest-binding level, `or`.
pub open spec fn spec_parse_expression(toks: Seq<TokenV>, pos: int, fuel: nat) -> Result<(AstV, int), Seq<char>>
    decreases fuel,
{
    if fuel == 0 {
        Err("Expression too deeply nested"@)
    } else {
        spec_parse_or(toks, pos, (fuel - 1) as nat)
    }
}

/// Parses an `or` chain, left-associatively.
pub open spec fn spec_parse_or(toks: Seq<TokenV>, pos: int, fuel: nat) -> Result<(AstV, int), Seq<char>>
    decreases fuel,
{
    if fuel == 0 {
        Err("Expression too deeply nested"@)
    } else {
        match spec_parse_and(toks, pos, (fuel - 1) as nat) {
            Err(m) => Err(m),
            Ok((left, p)) => spec_parse_or_tail(toks, left, p, (fuel - 1) as nat),
        }
    }
}

/// Folds further `or` operands onto an already-parsed left operand.
pub open spec fn spec_parse_or_tail(toks: Seq<TokenV>, left: AstV, pos: int, fuel: nat) -> Result<(AstV, int), Seq<char>>
    decreases fuel,
{
    if fuel == 0 {
        Err("Expression too deeply nested"@)
    } else if cur(toks, pos) is Or {
        match spec_parse_and(toks, pos + 1, (fuel - 1) as nat) {
            Err(m) => Err(m),
            Ok((right, p2)) => spec_parse_or_tail(
                toks,
                AstV::BinaryExpression {
                    left: Box::new(left),
                    operator: TokenV::Or,
                    right: Box::new(right),
                },
                p2,
                (fuel - 1) as nat,
            ),
        }
    } else {
        Ok((left, pos))
    }
}

/// Parses an `and` chain, left-associatively.
pub open spec fn spec_parse_and(toks: Seq<TokenV>, pos: int, fuel: nat) -> Result<(AstV, int), Seq<char>>
    decreases fuel,
{
    if fuel == 0 {
        Err("Expression too deeply nested"@)
    } else {
        match spec_parse_comparison(toks, pos, (fuel - 1) as nat) {
            Err(m) => Err(m),
            Ok((left, p)) => spec_parse_and_tail(toks, left, p, (fuel - 1) as nat),
        }
    }
}

/// Folds further `and` operands onto an already-parsed left operand.
pub open spec fn spec_parse_and_tail(toks: Seq<TokenV>, left: AstV, pos: int, fuel: nat) -> Result<(AstV, int), Seq<char>>
    decreases fuel,
{
    if fuel == 0 {
        Err("Expression too deeply nested"@)
    } else if cur(toks, pos) is And {
        match spec_parse_comparison(toks, pos + 1, (fuel - 1) as nat) {
            Err(m) => Err(m),
            Ok((right, p2)) => spec_parse_and_tail(
                toks,
                AstV::BinaryExpression {
                    left: Box::new(left),
                    operator: TokenV::And,
                    right: Box::new(right),
                },
                p2,
                (fuel - 1) as nat,
            ),
        }
    } else {
        Ok((left, pos))
    }
}

/// Whether a token is a comparison operator.
pub open spec fn is_cmp_op(t: TokenV) -> bool {
    t is Equal || t is LessThan || t is GreaterThan
}

/// Parses a comparison chain, left-associatively.
pub open spec fn spec_parse_comparison(toks: Seq<TokenV>, pos: int, fuel: nat) -> Result<(AstV, int), Seq<char>>
    decreases fuel,
{
    if fuel == 0 {
        Err("Expression too deeply nested"@)
    } else {
        match spec_parse_sum(toks, pos, (fuel - 1) as nat) {
            Err(m) => Err(m),
            Ok((left, p)) => spec_parse_comparison_tail(toks, left, p, (fuel - 1) as nat),
        }
    }
}

/// Folds further comparison operands onto an already-parsed left operand.
pub open spec fn spec_parse_comparison_tail(
    toks: Seq<TokenV>,
    left: AstV,
    pos: int,
    fuel: nat,
) -> Result<(AstV, int), Seq<char>>
    decreases fuel,
{
    if fuel == 0 {
        Err("Expression too deeply nested"@)
    } else if is_cmp_op(cur(toks, pos)) {
        match spec_parse_sum(toks, pos + 1, (fuel - 1) as nat) {
            Err(m) => Err(m),
            Ok((right, p2)) => spec_parse_comparison_tail(
                toks,
                AstV::BinaryExpression {
                    left: Box::new(left),
                    operator: cur(toks, pos),
                    right: Box::new(right),
                },
                p2,
                (fuel - 1) as nat,
            ),
        }
    } else {
        Ok((left, pos))
    }
}

/// Whether a token is an additive operator.
pub open spec fn is_sum_op(t: TokenV) -> bool {
    t is Plus || t is Minus
}

/// Parses an additive chain, left-associatively.
pub open spec fn spec_parse_sum(toks: Seq<TokenV>, pos: int, fuel: nat) -> Result<(AstV, int), Seq<char>>
    decreases fuel,
{
    if fuel == 0 {
        Err("Expression too deeply nested"@)
    } else {
        match spec_parse_product(toks, pos, (fuel - 1) as nat) {
            Err(m) => Err(m),
            Ok((left, p)) => spec_parse_sum_tail(toks, left, p, (fuel - 1) as nat),
        }
    }
}

/// Folds further additive operands onto an already-parsed left operand.
pub open spec fn spec_parse_sum_tail(toks: Seq<TokenV>, left: AstV, pos: int, fuel: nat) -> Result<(AstV, int), Seq<char>>
    decreases fuel,
{
    if fuel == 0 {
        Err("Expression too deeply nested"@)
    } else if is_sum_op(cur(toks, pos)) {
        match spec_parse_product(toks, pos + 1, (fuel - 1) as nat) {
            Err(m) => Err(m),
            Ok((right, p2)) => spec_parse_sum_tail(
                toks,
                AstV::BinaryExpression {
                    left: Box::new(left),
                    operator: cur(toks, pos),
                    right: Box::new(right),
                },
                p2,
                (fuel - 1) as nat,
            ),
        }
    } else {
        Ok((left, pos))
    }
}

/// Whether a token is a multiplicative operator.
pub open spec fn is_prod_op(t: TokenV) -> bool {
    t is Multiply || t is Divide
}

/// Parses a multiplicative chain, left-associatively.
pub open spec fn spec_parse_product(toks: Seq<TokenV>, pos: int, fuel: nat) -> Result<(AstV, int), Seq<char>>
    decreases fuel,
{
    if fuel == 0 {
        Err("Expression too deeply nested"@)
    } else {
        match spec_parse_factor(toks, pos, (fuel - 1) as nat) {
            Err(m) => Err(m),
            Ok((left, p)) => spec_parse_product_tail(toks, left, p, (fuel - 1) as nat),
        }
    }
}

/// Folds further multiplicative operands onto an already-parsed left
/// operand.
pub open spec fn spec_parse_product_tail(
    toks: Seq<TokenV>,
    left: AstV,
    pos: int,
    fuel: nat,
) -> Result<(AstV, int), Seq<char>>
    decreases fuel,
{
    if fuel == 0 {
        Err("Expression too deeply nested"@)
    } else if is_prod_op(cur(toks, pos)) {
        match spec_parse_factor(toks, pos + 1, (fuel - 1) as nat) {
            Err(m) => Err(m),
            Ok((right, p2)) => spec_parse_product_tail(
                toks,
                AstV::BinaryExpression {
                    left: Box::new(left),
                    operator: cur(toks, pos),
                    right: Box::new(right),
                },
                p2,
                (fuel - 1) as nat,
            ),
        }
    } else {
        Ok((left, pos))
    }
}

/// Parses a factor: a literal, an identifier with optional indexing or
/// call, a parenthesized expression, an array literal, or a dictionary
/// literal.
pub open spec fn spec_parse_factor(toks: Seq<TokenV>, pos: int, fuel: nat) -> Result<(AstV, int), Seq<char>>
    decreases fuel,
{
    if fuel == 0 {
        Err("Expression too deeply nested"@)
    } else {
        match cur(toks, pos) {
            TokenV::LeftBracket => spec_parse_array(toks, pos, (fuel - 1) as nat),
            TokenV::LeftCurly => spec_parse_dict(toks, pos, (fuel - 1) as nat),
            TokenV::Identifier(name) => {
                if cur(toks, pos + 1) is LeftBracket {
                    match spec_parse_expression(toks, pos + 2, (fuel - 1) as nat) {
                        Err(m) => Err(m),
                        Ok((idx, p)) => {
                            if cur(toks, p) is RightBracket {
                                Ok(
                                    (
                                        AstV::IndexExpression(
                                            Box::new(AstV::Identifier(name)),
                                            Box::new(idx),
                                        ),
                                        p + 1,
                                    ),
                                )
                            } else {
                                Err(
                                    "Expected RightBracket, but found "@ + describe_spec(
                                        cur(toks, p),
                                    ),
                                )
                            }
                        },
                    }
                } else if cur(toks, pos + 1) is LeftParen {
                    if cur(toks, pos + 2) is RightParen {
                        Ok(
                            (
                                AstV::FunctionCall {
                                    function: Box::new(AstV::Identifier(name)),
                                    arguments: Seq::empty(),
                                },
                                pos + 3,
                            ),
                        )
                    } else {
                        match spec_parse_args(toks, pos + 2, (fuel - 1) as nat) {
                            Err(m) => Err(m),
                            Ok((args, p)) => Ok(
                                (
                                    AstV::FunctionCall {
                                        function: Box::new(AstV::Identifier(name)),
                                        arguments: args,
                                    },
                                    p + 1,
                                ),
                            ),
                        }
                    }
                } else {
                    Ok((AstV::Identifier(name), pos + 1))
                }
            },
            TokenV::LeftParen => match spec_parse_expression(toks, pos + 1, (fuel - 1) as nat) {
                Err(m) => Err(m),
                Ok((e, p)) => {
                    if cur(toks, p) is RightParen {
                        Ok((e, p + 1))
                    } else {
                        Err("Expected RightParen, but found "@ + describe_spec(cur(toks, p)))
                    }
                },
            },
            TokenV::Nil => Ok((AstV::Nil, pos + 1)),
            TokenV::Number(n) => Ok((AstV::NumberLiteral(n), pos + 1)),
            TokenV::StringLiteral(s) => Ok((AstV::StringLiteral(s), pos + 1)),
            TokenV::True => Ok((AstV::Bool(true), pos + 1)),
            TokenV::False => Ok((AstV::Bool(false), pos + 1)),
            _ => Err("Unexpected token in factor: "@ + describe_spec(cur(toks, pos))),
        }
    }
}

/// Parses call arguments: expressions separated by commas, ending just
/// before the closing parenthesis (which the caller consumes). No trailing
/// comma is allowed.
pub open spec fn spec_parse_args(toks: Seq<TokenV>, pos: int, fuel: nat) -> Result<(Seq<AstV>, int), Seq<char>>
    decreases fuel,
{
    if fuel == 0 {
        Err("Expression too deeply nested"@)
    } else {
        match spec_parse_expression(toks, pos, (fuel - 1) as nat) {
            Err(m) => Err(m),
            Ok((e, p)) => {
                if cur(toks, p) is Comma {
                    match spec_parse_args(toks, p + 1, (fuel - 1) as nat) {
                        Err(m) => Err(m),
                        Ok((rest, p2)) => Ok((seq![e] + rest, p2)),
                    }
                } else if cur(toks, p) is RightParen {
                    Ok((seq![e], p))
                } else {
                    Err("Expected ',' or ')', found "@ + describe_spec(cur(toks, p)))
                }
            },
        }
    }
}

/// Parses an array literal: comma-separated expressions in brackets, with
/// an optional trailing comma; `[]` is the empty array.
pub open spec fn spec_parse_array(toks: Seq<TokenV>, pos: int, fuel: nat) -> Result<(AstV, int), Seq<char>>
    decreases fuel,
{
    if fuel == 0 {
        Err("Expression too deeply nested"@)
    } else if !(cur(toks, pos) is LeftBracket) {
        Err(
            "Expected "@ + describe_spec(TokenV::LeftBracket) + ", but found "@ + describe_spec(
                cur(toks, pos),
            ),
        )
    } else if cur(toks, pos + 1) is RightBracket {
        Ok((AstV::ArrayLiteral(Seq::empty()), pos + 2))
    } else {
        match spec_parse_array_items(toks, pos + 1, (fuel - 1) as nat) {
            Err(m) => Err(m),
            Ok((items, p)) => Ok((AstV::ArrayLiteral(items), p)),
        }
    }
}

/// Parses the elements of a non-empty array literal, ending past the
/// closing bracket.
pub open spec fn spec_parse_array_items(toks: Seq<TokenV>, pos: int, fuel: nat) -> Result<(Seq<AstV>, int), Seq<char>>
    decreases fuel,
{
    if fuel == 0 {
        Err("Expression too deeply nested"@)
    } else {
        match spec_parse_expression(toks, pos, (fuel - 1) as nat) {
            Err(m) => Err(m),
            Ok((e, p)) => {
                if cur(toks, p) is Comma {
                    if cur(toks, p + 1) is RightBracket {
                        Ok((seq![e], p + 2))
                    } else {
                        match spec_parse_array_items(toks, p + 1, (fuel - 1) as nat) {
                            Err(m) => Err(m),
                            Ok((rest, p2)) => Ok((seq![e] + rest, p2)),
                        }
                    }
                } else if cur(toks, p) is RightBracket {
                    Ok((seq![e], p + 1))
                } else {
                    Err("Expected ',' or ']', found "@ + describe_spec(cur(toks, p)))
                }
            },
        }
    }
}

/// Parses a dictionary literal: comma-separated `key: expr` pairs in
/// braces, the key an identifier or string literal, with an optional
/// trailing comma; `{}` is the empty dictionary.
pub open spec fn spec_parse_dict(toks: Seq<TokenV>, pos: int, fuel: nat) -> Result<(AstV, int), Seq<char>>
    decreases fuel,
{
    if fuel == 0 {
        Err("Expression too deeply nested"@)
    } else if !(cur(toks, pos) is LeftCurly) {
        Err(
            "Expected "@ + describe_spec(TokenV::LeftCurly) + ", but found "@ + describe_spec(
                cur(toks, pos),
            ),
        )
    } else if cur(toks, pos + 1) is RightCurly {
        Ok((AstV::DictionaryLiteral(Seq::empty()), pos + 2))
    } else {
        match spec_parse_dict_items(toks, pos + 1, (fuel - 1) as nat) {
            Err(m) => Err(m),
            Ok((pairs, p)) => Ok((AstV::DictionaryLiteral(pairs), p)),
        }
    }
}

/// The dictionary key named by a token, if it is one.
pub open spec fn dict_key(t: TokenV) -> Option<Seq<char>> {
    match t {
        TokenV::Identifier(name) => Some(name),
        TokenV::StringLiteral(s) => Some(s),
        _ => None,
    }
}

/// Parses the entries of a non-empty dictionary literal, ending past the
/// closing brace.
pub open spec fn spec_parse_dict_items(toks: Seq<TokenV>, pos: int, fuel: nat) -> Result<(Seq<(Seq<char>, AstV)>, int), Seq<char>>
    decreases fuel,
{
    if fuel == 0 {
        Err("Expression too deeply nested"@)
    } else {
        match dict_key(cur(toks, pos)) {
            None => Err(
                "Expected identifier or string literal as dictionary key, found "@
                    + describe_spec(cur(toks, pos)),
            ),
            Some(key) => {
                if !(cur(toks, pos + 1) is Colon) {
                    Err(
                        "Expected "@ + describe_spec(TokenV::Colon) + ", but found "@
                            + describe_spec(cur(toks, pos + 1)),
                    )
                } else {
                    match spec_parse_expression(toks, pos + 2, (fuel - 1) as nat) {
                        Err(m) => Err(m),
                        Ok((e, p)) => {
                            if cur(toks, p) is Comma {
                                if cur(toks, p + 1) is RightCurly {
                                    Ok((seq![(key, e)], p + 2))
                                } else {
                                    match spec_parse_dict_items(toks, p + 1, (fuel - 1) as nat) {
                                        Err(m) => Err(m),
                                        Ok((rest, p2)) => Ok((seq![(key, e)] + rest, p2)),
                                    }
                                }
                            } else if cur(toks, p) is RightCurly {
                                Ok((seq![(key, e)], p + 1))
                            } else {
                                Err(
                                    "Expected ',' or '}' in dictionary literal, found "@
                                        + describe_spec(cur(toks, p)),
                                )
                            }
                        },
                    }
                }
            },
        }
    }
}

/// Whether a statement inside a block makes its trailing semicolon
/// optional: one that ends in its own block.
pub open spec fn block_stmt_optional_semi(stmt: AstV) -> bool {
    ends_in_block(stmt)
}

/// Parses a block: statements in braces, separated by semicolons, with the
/// semicolon optional after a statement ending in a block and before the
/// closing brace.
pub open spec fn spec_parse_block(toks: Seq<TokenV>, pos: int, fuel: nat) -> Result<(AstV, int), Seq<char>>
    decreases fuel,
{
    if fuel == 0 {
        Err("Statement too deeply nested"@)
    } else if !(cur(toks, pos) is LeftCurly) {
        Err(
            "Expected "@ + describe_spec(TokenV::LeftCurly) + ", but found "@ + describe_spec(
                cur(toks, pos),
            ),
        )
    } else {
        match spec_parse_block_items(toks, pos + 1, (fuel - 1) as nat) {
            Err(m) => Err(m),
            Ok((stmts, p)) => Ok((AstV::Block(stmts), p)),
        }
    }
}

/// Parses the statement list of a block, ending past the closing brace.
pub open spec fn spec_parse_block_items(toks: Seq<TokenV>, pos: int, fuel: nat) -> Result<(Seq<AstV>, int), Seq<char>>
    decreases fuel,
{
    if fuel == 0 {
        Err("Statement too deeply nested"@)
    } else if cur(toks, pos) is RightCurly {
        Ok((Seq::empty(), pos + 1))
    } else if cur(toks, pos) is Eof {
        Err("Expected RightCurly, but found "@ + describe_spec(cur(toks, pos)))
    } else if cur(toks, pos) is Semicolon {
        spec_parse_block_items(toks, pos + 1, (fuel - 1) as nat)
    } else {
        match spec_parse_statement(toks, pos, (fuel - 1) as nat) {
            Err(m) => Err(m),
            Ok((stmt, p1)) => {
                let p2 = if block_stmt_optional_semi(stmt) {
                    if cur(toks, p1) is Semicolon {
                        p1 + 1
                    } else {
                        p1
                    }
                } else if cur(toks, p1) is RightCurly {
                    p1
                } else if cur(toks, p1) is Semicolon {
                    p1 + 1
                } else {
                    -1
                };
                if p2 < 0 {
                    Err("Expected Semicolon or }, found "@ + describe_spec(cur(toks, p1)))
                } else {
                    match spec_parse_block_items(toks, p2, (fuel - 1) as nat) {
                        Err(m) => Err(m),
                        Ok((rest, p3)) => Ok((seq![stmt] + rest, p3)),
                    }
                }
            },
        }
    }
}

/// Parses an `if` statement: a condition, a block, and an optional `else`
/// block.
pub open spec fn spec_parse_if(toks: Seq<TokenV>, pos: int, fuel: nat) -> Result<(AstV, int), Seq<char>>
    decreases fuel,
{
    if fuel == 0 {
        Err("Statement too deeply nested"@)
    } else if !(cur(toks, pos) is If) {
        Err(
            "Expected "@ + describe_spec(TokenV::If) + ", but found "@ + describe_spec(
                cur(toks, pos),
            ),
        )
    } else {
        match spec_parse_expression(toks, pos + 1, (fuel - 1) as nat) {
            Err(m) => Err(m),
            Ok((cond, p1)) => match spec_parse_block(toks, p1, (fuel - 1) as nat) {
                Err(m) => Err(m),
                Ok((cons, p2)) => {
                    if cur(toks, p2) is Else {
                        match spec_parse_block(toks, p2 + 1, (fuel - 1) as nat) {
                            Err(m) => Err(m),
                            Ok((alt, p3)) => Ok(
                                (
                                    AstV::IfStatement {
                                        condition: Box::new(cond),
                                        consequence: Box::new(cons),
                                        alternative: Some(Box::new(alt)),
                                    },
                                    p3,
                                ),
                            ),
                        }
                    } else {
                        Ok(
                            (
                                AstV::IfStatement {
                                    condition: Box::new(cond),
                                    consequence: Box::new(cons),
                                    alternative: None,
                                },
                                p2,
                            ),
                        )
                    }
                },
            },
        }
    }
}

/// Parses a `while` statement: a condition and a body block.
pub open spec fn spec_parse_while(toks: Seq<TokenV>, pos: int, fuel: nat) -> Result<(AstV, int), Seq<char>>
    decreases fuel,
{
    if fuel == 0 {
        Err("Statement too deeply nested"@)
    } else if !(cur(toks, pos) is While) {
        Err(
            "Expected "@ + describe_spec(TokenV::While) + ", but found "@ + describe_spec(
                cur(toks, pos),
            ),
        )
    } else {
        match spec_parse_expression(toks, pos + 1, (fuel - 1) as nat) {
            Err(m) => Err(m),
            Ok((cond, p1)) => match spec_parse_block(toks, p1, (fuel - 1) as nat) {
                Err(m) => Err(m),
                Ok((body, p2)) => Ok(
                    (
                        AstV::WhileStatement { condition: Box::new(cond), body: Box::new(body) },
                        p2,
                    ),
                ),
            },
        }
    }
}

/// Parses a function declaration: `func`, a name, a parenthesized
/// parameter list, and a body block.
pub open spec fn spec_parse_func(toks: Seq<TokenV>, pos: int, fuel: nat) -> Result<(AstV, int), Seq<char>>
    decreases fuel,
{
    if fuel == 0 {
        Err("Statement too deeply nested"@)
    } else if !(cur(toks, pos) is Func) {
        Err(
            "Expected "@ + describe_spec(TokenV::Func) + ", but found "@ + describe_spec(
                cur(toks, pos),
            ),
        )
    } else {
        match cur(toks, pos + 1) {
            TokenV::Identifier(name) => {
                if !(cur(toks, pos + 2) is LeftParen) {
                    Err(
                        "Expected "@ + describe_spec(TokenV::LeftParen) + ", but found "@
                            + describe_spec(cur(toks, pos + 2)),
                    )
                } else if cur(toks, pos + 3) is RightParen {
                    match spec_parse_block(toks, pos + 4, (fuel - 1) as nat) {
                        Err(m) => Err(m),
                        Ok((body, p)) => Ok(
                            (
                                AstV::FunctionDeclaration {
                                    name,
                                    params: Seq::empty(),
                                    body: Box::new(body),
                                },
                                p,
                            ),
                        ),
                    }
                } else {
                    match spec_parse_params(toks, pos + 3, (fuel - 1) as nat) {
                        Err(m) => Err(m),
                        Ok((params, p)) => match spec_parse_block(
                            toks,
                            p + 1,
                            (fuel - 1) as nat,
                        ) {
                            Err(m) => Err(m),
                            Ok((body, p2)) => Ok(
                                (
                                    AstV::FunctionDeclaration {
                                        name,
                                        params,
                                        body: Box::new(body),
                                    },
                                    p2,
                                ),
                            ),
                        },
                    }
                }
            },
            _ => Err(
                "Expected identifier after 'func', found "@ + describe_spec(cur(toks, pos + 1)),
            ),
        }
    }
}

/// Parses a non-empty parameter list: identifiers separated by commas,
/// ending just before the closing parenthesis (which the caller consumes).
pub open spec fn spec_parse_params(toks: Seq<TokenV>, pos: int, fuel: nat) -> Result<(Seq<Seq<char>>, int), Seq<char>>
    decreases fuel,
{
    if fuel == 0 {
        Err("Statement too deeply nested"@)
    } else {
        match cur(toks, pos) {
            TokenV::Identifier(name) => {
                if cur(toks, pos + 1) is Comma {
                    match spec_parse_params(toks, pos + 2, (fuel - 1) as nat) {
                        Err(m) => Err(m),
                        Ok((rest, p)) => Ok((seq![name] + rest, p)),
                    }
                } else if cur(toks, pos + 1) is RightParen {
                    Ok((seq![name], pos + 1))
                } else {
                    Err("Expected ',' or ')', found "@ + describe_spec(cur(toks, pos + 1)))
                }
            },
            _ => Err("Expected parameter name, found "@ + describe_spec(cur(toks, pos))),
        }
    }
}

/// Parses a `return` statement: `return`, then an expression unless a
/// semicolon follows immediately.
pub open spec fn spec_parse_return(toks: Seq<TokenV>, pos: int, fuel: nat) -> Result<(AstV, int), Seq<char>>
    decreases fuel,
{
    if fuel == 0 {
        Err("Statement too deeply nested"@)
    } else if !(cur(toks, pos) is Return) {
        Err(
            "Expected "@ + describe_spec(TokenV::Return) + ", but found "@ + describe_spec(
                cur(toks, pos),
            ),
        )
    } else if cur(toks, pos + 1) is Semicolon {
        Ok((AstV::Return(None), pos + 1))
    } else {
        match spec_parse_expression(toks, pos + 1, (fuel - 1) as nat) {
            Err(m) => Err(m),
            Ok((e, p)) => Ok((AstV::Return(Some(Box::new(e))), p)),
        }
    }
}

/// The models of a token list, elementwise.
pub open spec fn toks_view(v: Vec<Token>) -> Seq<TokenV> {
    Seq::new(v@.len(), |i: int| v@[i]@)
}

/// The parser: a fully materialized token sequence and a cursor into it.
pub struct Parser {
    tokens: Vec<Token>,
    position: usize,
}

impl Parser {
    /// The token sequence being parsed.
    pub closed spec fn toks(&self) -> Seq<TokenV> {
        toks_view(self.tokens)
    }

    /// The cursor: the position parsing continues from.
    pub closed spec fn pos(&self) -> int {
        self.position as int
    }

    /// Makes a parser at the start of the given tokens.
    pub fn new(tokens: Vec<Token>) -> (p: Parser)
        ensures
            p.toks() == toks_view(tokens),
            p.pos() == 0,
    {
        Parser { tokens, position: 0 }
    }

    /// The token at the cursor; `Eof` once the cursor passes the end.
    pub fn current_token(&self) -> (t: &Token)
        ensures
            t@ == cur(self.toks(), self.pos()),
    {
        if self.position < self.tokens.len() {
            &self.tokens[self.position]
        } else {
            &Token::Eof
        }
    }

    /// The token at an arbitrary position; `Eof` past the end.
    fn token_at(&self, i: usize) -> (t: &Token)
        ensures
            t@ == cur(self.toks(), i as int),
    {
        if i < self.tokens.len() {
            &self.tokens[i]
        } else {
            &Token::Eof
        }
    }

    /// Moves the cursor one token forward; at the end it stays put.
    pub fn advance(&mut self)
        ensures
            final(self).toks() == old(self).toks(),
            final(self).pos() == if old(self).pos() < old(self).toks().len() {
                old(self).pos() + 1
            } else {
                old(self).pos()
            },
    {
        if self.position < self.tokens.len() {
            self.position = self.position + 1;
        }
    }

    /// Consumes the expected token: succeeds and moves past it exactly when
    /// the token at the cursor equals it, and otherwise reports the expected
    /// token and the one found, moving nothing.
    pub fn consume(&mut self, expected: &Token) -> (r: Result<(), String>)
        ensures
            final(self).toks() == old(self).toks(),
            (r is Ok) == (cur(old(self).toks(), old(self).pos()) == expected@),
            r is Ok ==> final(self).pos() == if old(self).pos() < old(self).toks().len() {
                old(self).pos() + 1
            } else {
                old(self).pos()
            },
            r matches Err(m) ==> final(self).pos() == old(self).pos() && m@ == "Expected "@
                + describe_spec(expected@) + ", but found "@ + describe_spec(
                cur(old(self).toks(), old(self).pos()),
            ),
    {
        let ok = token_eq(self.current_token(), expected);
        if ok {
            self.advance();
            Ok(())
        } else {
            let mut msg = str_to_string("Expected ");
            let d = describe_token(expected);
            msg.append(d.as_str());
            msg.append(", but found ");
            let f = describe_token(self.current_token());
            msg.append(f.as_str());
            Err(msg)
        }
    }

    /// Parses a whole program from the cursor to `Eof`.
    pub fn parse_program(&mut self) -> (r: Result<AstNode, String>)
        ensures
            final(self).toks() == old(self).toks(),
            match spec_parse_program(old(self).toks(), old(self).pos(), u64::MAX as nat) {
                Ok((a, p)) => r matches Ok(node) && node@ == a && final(self).pos() == p,
                Err(m) => r matches Err(s) && s@ == m,
            },
    {
        self.parse_program_fuel(u64::MAX)
    }

    /// Parses one statement at the cursor.
    pub fn parse_statement(&mut self) -> (r: Result<AstNode, String>)
        ensures
            final(self).toks() == old(self).toks(),
            match spec_parse_statement(old(self).toks(), old(self).pos(), u64::MAX as nat) {
                Ok((a, p)) => r matches Ok(node) && node@ == a && final(self).pos() == p,
                Err(m) => r matches Err(s) && s@ == m,
            },
    {
        self.parse_statement_fuel(u64::MAX)
    }

    /// Parses one expression at the cursor.
    pub fn parse_expression(&mut self) -> (r: Result<AstNode, String>)
        ensures
            final(self).toks() == old(self).toks(),
            match spec_parse_expression(old(self).toks(), old(self).pos(), u64::MAX as nat) {
                Ok((a, p)) => r matches Ok(node) && node@ == a && final(self).pos() == p,
                Err(m) => r matches Err(s) && s@ == m,
            },
    {
        self.parse_expression_fuel(u64::MAX)
    }

    /// Parses one factor at the cursor.
    pub fn parse_factor(&mut self) -> (r: Result<AstNode, String>)
        ensures
            final(self).toks() == old(self).toks(),
            match spec_parse_factor(old(self).toks(), old(self).pos(), u64::MAX as nat) {
                Ok((a, p)) => r matches Ok(node) && node@ == a && final(self).pos() == p,
                Err(m) => r matches Err(s) && s@ == m,
            },
    {
        self.parse_factor_fuel(u64::MAX)
    }

    fn parse_program_fuel(&mut self, fuel: u64) -> (r: Result<AstNode, String>)
        ensures
            final(self).toks() == old(self).toks(),
            match spec_parse_program(old(self).toks(), old(self).pos(), fuel as nat) {
                Ok((a, p)) => r matches Ok(node) && node@ == a && final(self).pos() == p,
                Err(m) => r matches Err(s) && s@ == m,
            },
        decreases fuel,
    {
        if fuel == 0 {
            return Err(str_to_string("Program too deeply nested"));
        }
        let stmts = self.parse_program_items(fuel - 1)?;
        Ok(AstNode::Program(stmts))
    }

    #[verifier::rlimit(100)]
    #[verifier::spinoff_prover]
    fn parse_program_items(&mut self, fuel: u64) -> (r: Result<Vec<AstNode>, String>)
        ensures
            final(self).toks() == old(self).toks(),
            match spec_parse_program_items(old(self).toks(), old(self).pos(), fuel as nat) {
                Ok((ss, p)) => r matches Ok(nodes) && asts_view(nodes) == ss && final(self).pos()
                    == p,
                Err(m) => r matches Err(s) && s@ == m,
            },
        decreases fuel,
    {
        if fuel == 0 {
            return Err(str_to_string("Program too deeply nested"));
        }
        let tok = self.current_token().clone();
        match tok {
            Token::Eof => {
                let nodes: Vec<AstNode> = Vec::new();
                proof {
                    assert(asts_view(nodes) =~= Seq::<AstV>::empty());
                }
                Ok(nodes)
            },
            Token::Semicolon => {
                self.advance();
                self.parse_program_items(fuel - 1)
            },
            _ => {
                let stmt = self.parse_statement_fuel(fuel - 1)?;
                let is_block_or_function = matches!(
                    stmt,
                    AstNode::IfStatement { .. } | AstNode::WhileStatement { .. }
                        | AstNode::FunctionDeclaration { .. }
                );
                proof {
                    assert(is_block_or_function == ends_in_block(stmt@));
                }
                if is_block_or_function {
                    let semi = token_eq(self.current_token(), &Token::Semicolon);
                    if semi {
                        self.advance();
                    }
                    let mut rest = self.parse_program_items(fuel - 1)?;
                    rest.insert(0, stmt);
                    proof {
                        assert(asts_view(rest) =~= seq![ast_view(rest@[0])] + asts_view(rest).drop_first());
                    }
                    Ok(rest)
                } else {
                    let semi = token_eq(self.current_token(), &Token::Semicolon);
                    if !semi {
                        return Err(self.missing_semicolon_message());
                    }
                    self.advance();
                    let mut rest = self.parse_program_items(fuel - 1)?;
                    rest.insert(0, stmt);
                    proof {
                        assert(asts_view(rest) =~= seq![ast_view(rest@[0])] + asts_view(rest).drop_first());
                    }
                    Ok(rest)
                }
            },
        }
    }
}


/// A successful argument-list parse stops at the closing parenthesis.
proof fn lemma_args_end_at_rparen(toks: Seq<TokenV>, pos: int, fuel: nat)
    ensures
        spec_parse_args(toks, pos, fuel) matches Ok((ss, p)) ==> cur(toks, p) is RightParen,
    decreases fuel,
{
    if fuel > 0 {
        match spec_parse_expression(toks, pos, (fuel - 1) as nat) {
            Err(m) => {},
            Ok((e, p)) => {
                if cur(toks, p) is Comma {
                    lemma_args_end_at_rparen(toks, p + 1, (fuel - 1) as nat);
                }
            },
        }
    }
}

/// A successful parameter-list parse stops at the closing parenthesis.
proof fn lemma_params_end_at_rparen(toks: Seq<TokenV>, pos: int, fuel: nat)
    ensures
        spec_parse_params(toks, pos, fuel) matches Ok((ss, p)) ==> cur(toks, p) is RightParen,
    decreases fuel,
{
    if fuel > 0 {
        match cur(toks, pos) {
            TokenV::Identifier(name) => {
                if cur(toks, pos + 1) is Comma {
                    lemma_params_end_at_rparen(toks, pos + 2, (fuel - 1) as nat);
                }
            },
            _ => {},
        }
    }
}



/// The tokens that can start a factor.
pub open spec fn starts_factor(t: TokenV) -> bool {
    t is LeftBracket || t is LeftCurly || t is Identifier || t is LeftParen || t is Nil
        || t is Number || t is StringLiteral || t is True || t is False
}

/// The description of a token used in parse-error messages.
pub open spec fn describe_spec(t: TokenV) -> Seq<char> {
    match t {
        TokenV::Let => "Let"@,
        TokenV::Print => "Print"@,
        TokenV::If => "If"@,
        TokenV::Else => "Else"@,
        TokenV::While => "While"@,
        TokenV::Break => "Break"@,
        TokenV::Func => "Func"@,
        TokenV::Return => "Return"@,
        TokenV::Identifier(s) => "Identifier(\""@ + s + "\")"@,
        TokenV::Number(n) => "Number("@ + crate::value::dec_str(n as int) + ")"@,
        TokenV::StringLiteral(s) => "StringLiteral(\""@ + s + "\")"@,
        TokenV::Assign => "Assign"@,
        TokenV::Equal => "Equal"@,
        TokenV::Plus => "Plus"@,
        TokenV::Minus => "Minus"@,
        TokenV::Multiply => "Multiply"@,
        TokenV::Divide => "Divide"@,
        TokenV::LessThan => "LessThan"@,
        TokenV::GreaterThan => "GreaterThan"@,
        TokenV::LeftParen => "LeftParen"@,
        TokenV::RightParen => "RightParen"@,
        TokenV::LeftBracket => "LeftBracket"@,
        TokenV::RightBracket => "RightBracket"@,
        TokenV::LeftCurly => "LeftCurly"@,
        TokenV::RightCurly => "RightCurly"@,
        TokenV::Colon => "Colon"@,
        TokenV::Comma => "Comma"@,
        TokenV::Semicolon => "Semicolon"@,
        TokenV::True => "True"@,
        TokenV::False => "False"@,
        TokenV::Or => "Or"@,
        TokenV::And => "And"@,
        TokenV::Nil => "Nil"@,
        TokenV::Eof => "Eof"@,
        TokenV::Unknown(c) => "Unknown('"@ + seq![c] + "')"@,
    }
}


/// Decides whether a token can start a factor.
fn token_starts_factor(t: &Token) -> (r: bool)
    ensures
        r == starts_factor(t@),
{
    matches!(
        t,
        Token::LeftBracket | Token::LeftCurly | Token::Identifier(_) | Token::LeftParen
            | Token::Nil | Token::Number(_) | Token::StringLiteral(_) | Token::True | Token::False
    )
}

/// A short description of a token, for parse-error messages.
fn describe_token(t: &Token) -> (r: String)
    ensures
        r@ == describe_spec(t@),
{
    match t {
        Token::Let => str_to_string("Let"),
        Token::Print => str_to_string("Print"),
        Token::If => str_to_string("If"),
        Token::Else => str_to_string("Else"),
        Token::While => str_to_string("While"),
        Token::Break => str_to_string("Break"),
        Token::Func => str_to_string("Func"),
        Token::Return => str_to_string("Return"),
        Token::Identifier(s) => {
            let mut r = str_to_string("Identifier(\"");
            r.append(s.as_str());
            r.append("\")");
            r
        },
        Token::Number(n) => {
            let mut r = str_to_string("Number(");
            let d = crate::value::to_decimal(*n);
            r.append(d.as_str());
            r.append(")");
            r
        },
        Token::StringLiteral(s) => {
            let mut r = str_to_string("StringLiteral(\"");
            r.append(s.as_str());
            r.append("\")");
            r
        },
        Token::Assign => str_to_string("Assign"),
        Token::Equal => str_to_string("Equal"),
        Token::Plus => str_to_string("Plus"),
        Token::Minus => str_to_string("Minus"),
        Token::Multiply => str_to_string("Multiply"),
        Token::Divide => str_to_string("Divide"),
        Token::LessThan => str_to_string("LessThan"),
        Token::GreaterThan => str_to_string("GreaterThan"),
        Token::LeftParen => str_to_string("LeftParen"),
        Token::RightParen => str_to_string("RightParen"),
        Token::LeftBracket => str_to_string("LeftBracket"),
        Token::RightBracket => str_to_string("RightBracket"),
        Token::LeftCurly => str_to_string("LeftCurly"),
        Token::RightCurly => str_to_string("RightCurly"),
        Token::Colon => str_to_string("Colon"),
        Token::Comma => str_to_string("Comma"),
        Token::Semicolon => str_to_string("Semicolon"),
        Token::True => str_to_string("True"),
        Token::False => str_to_string("False"),
        Token::Or => str_to_string("Or"),
        Token::And => str_to_string("And"),
        Token::Nil => str_to_string("Nil"),
        Token::Eof => str_to_string("Eof"),
        Token::Unknown(c) => {
            let mut r = str_to_string("Unknown('");
            let ch: Vec<char> = vec![*c];
            let cs = chars_to_string(&ch);
            r.append(cs.as_str());
            r.append("')");
            r
        },
    }
}

impl Parser {
    #[verifier::rlimit(100)]
    #[verifier::spinoff_prover]
    fn parse_statement_fuel(&mut self, fuel: u64) -> (r: Result<AstNode, String>)
        ensures
            final(self).toks() == old(self).toks(),
            match spec_parse_statement(old(self).toks(), old(self).pos(), fuel as nat) {
                Ok((a, p)) => r matches Ok(node) && node@ == a && final(self).pos() == p,
                Err(m) => r matches Err(s) && s@ == m,
            },
        decreases fuel,
    {
        if fuel == 0 {
            return Err(str_to_string("Statement too deeply nested"));
        }
        let tok = self.current_token().clone();
        match tok {
            Token::Let => {
                self.advance();
                let tok1 = self.current_token().clone();
                match tok1 {
                    Token::Identifier(name) => {
                        self.advance();
                        let tok2 = self.current_token().clone();
                        match tok2 {
                            Token::Assign => {
                                self.advance();
                                let value = self.parse_expression_fuel(fuel - 1)?;
                                Ok(AstNode::VariableDeclaration { name, value: Box::new(value) })
                            },
                            _ => {
                                let mut msg = str_to_string(
                                    "Expected '=' after identifier in let statement, found ",
                                );
                                let f = describe_token(self.current_token());
                                msg.append(f.as_str());
                                Err(msg)
                            },
                        }
                    },
                    _ => {
                        let mut msg = str_to_string("Expected identifier after 'let', found ");
                        let f = describe_token(self.current_token());
                        msg.append(f.as_str());
                        Err(msg)
                    },
                }
            },
            Token::Identifier(name) => {
                let next_is_assign = if self.position < self.tokens.len() {
                    matches!(self.token_at(self.position + 1), Token::Assign)
                } else {
                    false
                };
                if next_is_assign {
                    self.advance();
                    self.advance();
                    let value = self.parse_expression_fuel(fuel - 1)?;
                    Ok(AstNode::VariableDeclaration { name, value: Box::new(value) })
                } else {
                    self.parse_expression_fuel(fuel - 1)
                }
            },
            Token::Print => {
                self.advance();
                let expr = self.parse_expression_fuel(fuel - 1)?;
                Ok(AstNode::PrintStatement(Box::new(expr)))
            },
            Token::If => self.parse_if_statement(fuel - 1),
            Token::While => self.parse_while_statement(fuel - 1),
            Token::Break => {
                self.advance();
                Ok(AstNode::Break)
            },
            Token::Func => self.parse_function_declaration(fuel - 1),
            Token::Return => self.parse_return_statement(fuel - 1),
            _ => {
                if token_starts_factor(self.current_token()) {
                    self.parse_expression_fuel(fuel - 1)
                } else {
                    Err(self.unexpected_statement_message())
                }
            },
        }
    }

    fn parse_expression_fuel(&mut self, fuel: u64) -> (r: Result<AstNode, String>)
        ensures
            final(self).toks() == old(self).toks(),
            match spec_parse_expression(old(self).toks(), old(self).pos(), fuel as nat) {
                Ok((a, p)) => r matches Ok(node) && node@ == a && final(self).pos() == p,
                Err(m) => r matches Err(s) && s@ == m,
            },
        decreases fuel,
    {
        if fuel == 0 {
            return Err(str_to_string("Expression too deeply nested"));
        }
        self.parse_or_expression(fuel - 1)
    }

    fn parse_or_expression(&mut self, fuel: u64) -> (r: Result<AstNode, String>)
        ensures
            final(self).toks() == old(self).toks(),
            match spec_parse_or(old(self).toks(), old(self).pos(), fuel as nat) {
                Ok((a, p)) => r matches Ok(node) && node@ == a && final(self).pos() == p,
                Err(m) => r matches Err(s) && s@ == m,
            },
        decreases fuel,
    {
        if fuel == 0 {
            return Err(str_to_string("Expression too deeply nested"));
        }
        let left = self.parse_and_expression(fuel - 1)?;
        self.parse_or_tail(left, fuel - 1)
    }

    fn parse_or_tail(&mut self, left: AstNode, fuel: u64) -> (r: Result<AstNode, String>)
        ensures
            final(self).toks() == old(self).toks(),
            match spec_parse_or_tail(old(self).toks(), left@, old(self).pos(), fuel as nat) {
                Ok((a, p)) => r matches Ok(node) && node@ == a && final(self).pos() == p,
                Err(m) => r matches Err(s) && s@ == m,
            },
        decreases fuel,
    {
        if fuel == 0 {
            return Err(str_to_string("Expression too deeply nested"));
        }
        let is_or = matches!(self.current_token(), Token::Or);
        if is_or {
            self.advance();
            let right = self.parse_and_expression(fuel - 1)?;
            self.parse_or_tail(
                AstNode::BinaryExpression {
                    left: Box::new(left),
                    operator: Token::Or,
                    right: Box::new(right),
                },
                fuel - 1,
            )
        } else {
            Ok(left)
        }
    }

    fn parse_and_expression(&mut self, fuel: u64) -> (r: Result<AstNode, String>)
        ensures
            final(self).toks() == old(self).toks(),
            match spec_parse_and(old(self).toks(), old(self).pos(), fuel as nat) {
                Ok((a, p)) => r matches Ok(node) && node@ == a && final(self).pos() == p,
                Err(m) => r matches Err(s) && s@ == m,
            },
        decreases fuel,
    {
        if fuel == 0 {
            return Err(str_to_string("Expression too deeply nested"));
        }
        let left = self.parse_comparison(fuel - 1)?;
        self.parse_and_tail(left, fuel - 1)
    }

    fn parse_and_tail(&mut self, left: AstNode, fuel: u64) -> (r: Result<AstNode, String>)
        ensures
            final(self).toks() == old(self).toks(),
            match spec_parse_and_tail(old(self).toks(), left@, old(self).pos(), fuel as nat) {
                Ok((a, p)) => r matches Ok(node) && node@ == a && final(self).pos() == p,
                Err(m) => r matches Err(s) && s@ == m,
            },
        decreases fuel,
    {
        if fuel == 0 {
            return Err(str_to_string("Expression too deeply nested"));
        }
        let is_and = matches!(self.current_token(), Token::And);
        if is_and {
            self.advance();
            let right = self.parse_comparison(fuel - 1)?;
            self.parse_and_tail(
                AstNode::BinaryExpression {
                    left: Box::new(left),
                    operator: Token::And,
                    right: Box::new(right),
                },
                fuel - 1,
            )
        } else {
            Ok(left)
        }
    }

    fn parse_comparison(&mut self, fuel: u64) -> (r: Result<AstNode, String>)
        ensures
            final(self).toks() == old(self).toks(),
            match spec_parse_comparison(old(self).toks(), old(self).pos(), fuel as nat) {
                Ok((a, p)) => r matches Ok(node) && node@ == a && final(self).pos() == p,
                Err(m) => r matches Err(s) && s@ == m,
            },
        decreases fuel,
    {
        if fuel == 0 {
            return Err(str_to_string("Expression too deeply nested"));
        }
        let left = self.parse_sum(fuel - 1)?;
        self.parse_comparison_tail(left, fuel - 1)
    }

    fn parse_comparison_tail(&mut self, left: AstNode, fuel: u64) -> (r: Result<AstNode, String>)
        ensures
            final(self).toks() == old(self).toks(),
            match spec_parse_comparison_tail(
                old(self).toks(),
                left@,
                old(self).pos(),
                fuel as nat,
            ) {
                Ok((a, p)) => r matches Ok(node) && node@ == a && final(self).pos() == p,
                Err(m) => r matches Err(s) && s@ == m,
            },
        decreases fuel,
    {
        if fuel == 0 {
            return Err(str_to_string("Expression too deeply nested"));
        }
        let op = self.current_token().clone();
        let is_cmp = matches!(op, Token::Equal | Token::LessThan | Token::GreaterThan);
        if is_cmp {
            self.advance();
            let right = self.parse_sum(fuel - 1)?;
            self.parse_comparison_tail(
                AstNode::BinaryExpression {
                    left: Box::new(left),
                    operator: op,
                    right: Box::new(right),
                },
                fuel - 1,
            )
        } else {
            Ok(left)
        }
    }

    fn parse_sum(&mut self, fuel: u64) -> (r: Result<AstNode, String>)
        ensures
            final(self).toks() == old(self).toks(),
            match spec_parse_sum(old(self).toks(), old(self).pos(), fuel as nat) {
                Ok((a, p)) => r matches Ok(node) && node@ == a && final(self).pos() == p,
                Err(m) => r matches Err(s) && s@ == m,
            },
        decreases fuel,
    {
        if fuel == 0 {
            return Err(str_to_string("Expression too deeply nested"));
        }
        let left = self.parse_product(fuel - 1)?;
        self.parse_sum_tail(left, fuel - 1)
    }

    fn parse_sum_tail(&mut self, left: AstNode, fuel: u64) -> (r: Result<AstNode, String>)
        ensures
            final(self).toks() == old(self).toks(),
            match spec_parse_sum_tail(old(self).toks(), left@, old(self).pos(), fuel as nat) {
                Ok((a, p)) => r matches Ok(node) && node@ == a && final(self).pos() == p,
                Err(m) => r matches Err(s) && s@ == m,
            },
        decreases fuel,
    {
        if fuel == 0 {
            return Err(str_to_string("Expression too deeply nested"));
        }
        let op = self.current_token().clone();
        let is_sum = matches!(op, Token::Plus | Token::Minus);
        if is_sum {
            self.advance();
            let right = self.parse_product(fuel - 1)?;
            self.parse_sum_tail(
                AstNode::BinaryExpression {
                    left: Box::new(left),
                    operator: op,
                    right: Box::new(right),
                },
                fuel - 1,
            )
        } else {
            Ok(left)
        }
    }

    fn parse_product(&mut self, fuel: u64) -> (r: Result<AstNode, String>)
        ensures
            final(self).toks() == old(self).toks(),
            match spec_parse_product(old(self).toks(), old(self).pos(), fuel as nat) {
                Ok((a, p)) => r matches Ok(node) && node@ == a && final(self).pos() == p,
                Err(m) => r matches Err(s) && s@ == m,
            },
        decreases fuel,
    {
        if fuel == 0 {
            return Err(str_to_string("Expression too deeply nested"));
        }
        let left = self.parse_factor_fuel(fuel - 1)?;
        self.parse_product_tail(left, fuel - 1)
    }

    fn parse_product_tail(&mut self, left: AstNode, fuel: u64) -> (r: Result<AstNode, String>)
        ensures
            final(self).toks() == old(self).toks(),
            match spec_parse_product_tail(old(self).toks(), left@, old(self).pos(), fuel as nat) {
                Ok((a, p)) => r matches Ok(node) && node@ == a && final(self).pos() == p,
                Err(m) => r matches Err(s) && s@ == m,
            },
        decreases fuel,
    {
        if fuel == 0 {
            return Err(str_to_string("Expression too deeply nested"));
        }
        let op = self.current_token().clone();
        let is_prod = matches!(op, Token::Multiply | Token::Divide);
        if is_prod {
            self.advance();
            let right = self.parse_factor_fuel(fuel - 1)?;
            self.parse_product_tail(
                AstNode::BinaryExpression {
                    left: Box::new(left),
                    operator: op,
                    right: Box::new(right),
                },
                fuel - 1,
            )
        } else {
            Ok(left)
        }
    }



    /// The message rejecting a missing semicolon after a statement.
    fn missing_semicolon_message(&self) -> (m: String)
        ensures
            m@ == "Expected Semicolon, but found "@ + describe_spec(cur(self.toks(), self.pos())),
    {
        let mut msg = str_to_string("Expected Semicolon, but found ");
        let f = describe_token(self.current_token());
        msg.append(f.as_str());
        msg
    }

    /// The message rejecting a token that starts no factor.
    fn unexpected_factor_message(&self) -> (m: String)
        ensures
            m@ == "Unexpected token in factor: "@ + describe_spec(cur(self.toks(), self.pos())),
    {
        let mut msg = str_to_string("Unexpected token in factor: ");
        let f = describe_token(self.current_token());
        msg.append(f.as_str());
        msg
    }

    /// The message rejecting a token that starts no statement.
    fn unexpected_statement_message(&self) -> (m: String)
        ensures
            m@ == "Unexpected token in statement: "@ + describe_spec(cur(self.toks(), self.pos())),
    {
        let mut msg = str_to_string("Unexpected token in statement: ");
        let f = describe_token(self.current_token());
        msg.append(f.as_str());
        msg
    }

    #[verifier::rlimit(100)]
    #[verifier::spinoff_prover]
    fn parse_factor_fuel(&mut self, fuel: u64) -> (r: Result<AstNode, String>)
        ensures
            final(self).toks() == old(self).toks(),
            match spec_parse_factor(old(self).toks(), old(self).pos(), fuel as nat) {
                Ok((a, p)) => r matches Ok(node) && node@ == a && final(self).pos() == p,
                Err(m) => r matches Err(s) && s@ == m,
            },
        decreases fuel,
    {
        if fuel == 0 {
            return Err(str_to_string("Expression too deeply nested"));
        }
        let tok = self.current_token().clone();
        match tok {
            Token::LeftBracket => self.parse_array_literal(fuel - 1),
            Token::LeftCurly => self.parse_dictionary_literal(fuel - 1),
            Token::Identifier(name) => {
                let next = if self.position < self.tokens.len() {
                    self.token_at(self.position + 1).clone()
                } else {
                    Token::Eof
                };
                if matches!(next, Token::LeftBracket) {
                    self.advance();
                    self.advance();
                    let index = self.parse_expression_fuel(fuel - 1)?;
                    let closed = token_eq(self.current_token(), &Token::RightBracket);
                    if closed {
                        self.advance();
                        let callee = AstNode::Identifier(name);
                        proof {
                            assert(callee@ is Identifier);
                        }
                        Ok(AstNode::IndexExpression(Box::new(callee), Box::new(index)))
                    } else {
                        let mut msg = str_to_string("Expected RightBracket, but found ");
                        let f = describe_token(self.current_token());
                        msg.append(f.as_str());
                        Err(msg)
                    }
                } else if matches!(next, Token::LeftParen) {
                    self.advance();
                    self.advance();
                    let empty = token_eq(self.current_token(), &Token::RightParen);
                    if empty {
                        self.advance();
                        let arguments: Vec<AstNode> = Vec::new();
                        proof {
                            assert(asts_view(arguments) =~= Seq::<AstV>::empty());
                        }
                        let callee = AstNode::Identifier(name);
                        proof {
                            assert(callee@ is Identifier);
                        }
                        Ok(AstNode::FunctionCall { function: Box::new(callee), arguments })
                    } else {
                        let args = self.parse_call_args(fuel - 1)?;
                        proof {
                            lemma_args_end_at_rparen(old(self).toks(), old(self).pos() + 2, (fuel - 1) as nat);
                        }
                        self.advance();
                        let callee = AstNode::Identifier(name);
                        proof {
                            assert(callee@ is Identifier);
                        }
                        Ok(AstNode::FunctionCall { function: Box::new(callee), arguments: args })
                    }
                } else {
                    self.advance();
                    Ok(AstNode::Identifier(name))
                }
            },
            Token::LeftParen => {
                self.advance();
                let expr = self.parse_expression_fuel(fuel - 1)?;
                let closed = token_eq(self.current_token(), &Token::RightParen);
                if closed {
                    self.advance();
                    Ok(expr)
                } else {
                    let mut msg = str_to_string("Expected RightParen, but found ");
                    let f = describe_token(self.current_token());
                    msg.append(f.as_str());
                    Err(msg)
                }
            },
            Token::Nil => {
                self.advance();
                Ok(AstNode::Nil)
            },
            Token::Number(n) => {
                self.advance();
                Ok(AstNode::NumberLiteral(n))
            },
            Token::StringLiteral(s) => {
                self.advance();
                Ok(AstNode::StringLiteral(s))
            },
            Token::True => {
                self.advance();
                Ok(AstNode::Bool(true))
            },
            Token::False => {
                self.advance();
                Ok(AstNode::Bool(false))
            },
            _ => Err(self.unexpected_factor_message()),
        }
    }

    fn parse_call_args(&mut self, fuel: u64) -> (r: Result<Vec<AstNode>, String>)
        ensures
            final(self).toks() == old(self).toks(),
            match spec_parse_args(old(self).toks(), old(self).pos(), fuel as nat) {
                Ok((ss, p)) => r matches Ok(nodes) && asts_view(nodes) == ss && final(self).pos()
                    == p,
                Err(m) => r matches Err(s) && s@ == m,
            },
        decreases fuel,
    {
        if fuel == 0 {
            return Err(str_to_string("Expression too deeply nested"));
        }
        let e = self.parse_expression_fuel(fuel - 1)?;
        let tok = self.current_token().clone();
        match tok {
            Token::Comma => {
                self.advance();
                let mut rest = self.parse_call_args(fuel - 1)?;
                rest.insert(0, e);
                proof {
                    assert(asts_view(rest) =~= seq![ast_view(rest@[0])] + asts_view(
                        rest,
                    ).drop_first());
                }
                Ok(rest)
            },
            Token::RightParen => {
                let mut one: Vec<AstNode> = Vec::new();
                one.push(e);
                proof {
                    assert(asts_view(one) =~= seq![ast_view(one@[0])]);
                }
                Ok(one)
            },
            _ => {
                let mut msg = str_to_string("Expected ',' or ')', found ");
                let f = describe_token(self.current_token());
                msg.append(f.as_str());
                Err(msg)
            },
        }
    }
}

impl Parser {
    fn parse_array_literal(&mut self, fuel: u64) -> (r: Result<AstNode, String>)
        ensures
            final(self).toks() == old(self).toks(),
            match spec_parse_array(old(self).toks(), old(self).pos(), fuel as nat) {
                Ok((a, p)) => r matches Ok(node) && node@ == a && final(self).pos() == p,
                Err(m) => r matches Err(s) && s@ == m,
            },
        decreases fuel,
    {
        if fuel == 0 {
            return Err(str_to_string("Expression too deeply nested"));
        }
        self.consume(&Token::LeftBracket)?;
        let empty = token_eq(self.current_token(), &Token::RightBracket);
        if empty {
            self.advance();
            let items: Vec<AstNode> = Vec::new();
            proof {
                assert(asts_view(items) =~= Seq::<AstV>::empty());
            }
            return Ok(AstNode::ArrayLiteral(items));
        }
        let items = self.parse_array_items(fuel - 1)?;
        Ok(AstNode::ArrayLiteral(items))
    }

    fn parse_array_items(&mut self, fuel: u64) -> (r: Result<Vec<AstNode>, String>)
        ensures
            final(self).toks() == old(self).toks(),
            match spec_parse_array_items(old(self).toks(), old(self).pos(), fuel as nat) {
                Ok((ss, p)) => r matches Ok(nodes) && asts_view(nodes) == ss && final(self).pos()
                    == p,
                Err(m) => r matches Err(s) && s@ == m,
            },
        decreases fuel,
    {
        if fuel == 0 {
            return Err(str_to_string("Expression too deeply nested"));
        }
        let e = self.parse_expression_fuel(fuel - 1)?;
        let tok = self.current_token().clone();
        match tok {
            Token::Comma => {
                self.advance();
                let closing = token_eq(self.current_token(), &Token::RightBracket);
                if closing {
                    self.advance();
                    let mut one: Vec<AstNode> = Vec::new();
                    one.push(e);
                    proof {
                        assert(asts_view(one) =~= seq![ast_view(one@[0])]);
                    }
                    Ok(one)
                } else {
                    let mut rest = self.parse_array_items(fuel - 1)?;
                    rest.insert(0, e);
                    proof {
                        assert(asts_view(rest) =~= seq![ast_view(rest@[0])] + asts_view(
                            rest,
                        ).drop_first());
                    }
                    Ok(rest)
                }
            },
            Token::RightBracket => {
                self.advance();
                let mut one: Vec<AstNode> = Vec::new();
                one.push(e);
                proof {
                    assert(asts_view(one) =~= seq![ast_view(one@[0])]);
                }
                Ok(one)
            },
            _ => {
                let mut msg = str_to_string("Expected ',' or ']', found ");
                let f = describe_token(self.current_token());
                msg.append(f.as_str());
                Err(msg)
            },
        }
    }

    fn parse_dictionary_literal(&mut self, fuel: u64) -> (r: Result<AstNode, String>)
        ensures
            final(self).toks() == old(self).toks(),
            match spec_parse_dict(old(self).toks(), old(self).pos(), fuel as nat) {
                Ok((a, p)) => r matches Ok(node) && node@ == a && final(self).pos() == p,
                Err(m) => r matches Err(s) && s@ == m,
            },
        decreases fuel,
    {
        if fuel == 0 {
            return Err(str_to_string("Expression too deeply nested"));
        }
        self.consume(&Token::LeftCurly)?;
        let empty = token_eq(self.current_token(), &Token::RightCurly);
        if empty {
            self.advance();
            let pairs: Vec<(String, AstNode)> = Vec::new();
            proof {
                assert(pairs_view(pairs) =~= Seq::<(Seq<char>, AstV)>::empty());
            }
            return Ok(AstNode::DictionaryLiteral(pairs));
        }
        let pairs = self.parse_dict_items(fuel - 1)?;
        Ok(AstNode::DictionaryLiteral(pairs))
    }

    fn parse_dict_items(&mut self, fuel: u64) -> (r: Result<Vec<(String, AstNode)>, String>)
        ensures
            final(self).toks() == old(self).toks(),
            match spec_parse_dict_items(old(self).toks(), old(self).pos(), fuel as nat) {
                Ok((ss, p)) => r matches Ok(pairs) && pairs_view(pairs) == ss
                    && final(self).pos() == p,
                Err(m) => r matches Err(s) && s@ == m,
            },
        decreases fuel,
    {
        if fuel == 0 {
            return Err(str_to_string("Expression too deeply nested"));
        }
        let tok = self.current_token().clone();
        let key = match tok {
            Token::Identifier(name) => {
                self.advance();
                name
            },
            Token::StringLiteral(s) => {
                self.advance();
                s
            },
            _ => {
                let mut msg = str_to_string(
                    "Expected identifier or string literal as dictionary key, found ",
                );
                let f = describe_token(self.current_token());
                msg.append(f.as_str());
                return Err(msg);
            },
        };
        self.consume(&Token::Colon)?;
        let value = self.parse_expression_fuel(fuel - 1)?;
        let tok2 = self.current_token().clone();
        match tok2 {
            Token::Comma => {
                self.advance();
                let closing = token_eq(self.current_token(), &Token::RightCurly);
                if closing {
                    self.advance();
                    let mut one: Vec<(String, AstNode)> = Vec::new();
                    one.push((key, value));
                    proof {
                        assert(pairs_view(one) =~= seq![(one@[0].0@, ast_view(one@[0].1))]);
                    }
                    Ok(one)
                } else {
                    let mut rest = self.parse_dict_items(fuel - 1)?;
                    rest.insert(0, (key, value));
                    proof {
                        assert(pairs_view(rest) =~= seq![(rest@[0].0@, ast_view(rest@[0].1))]
                            + pairs_view(rest).drop_first());
                    }
                    Ok(rest)
                }
            },
            Token::RightCurly => {
                self.advance();
                let mut one: Vec<(String, AstNode)> = Vec::new();
                one.push((key, value));
                proof {
                    assert(pairs_view(one) =~= seq![(one@[0].0@, ast_view(one@[0].1))]);
                }
                Ok(one)
            },
            _ => {
                let mut msg = str_to_string("Expected ',' or '}' in dictionary literal, found ");
                let f = describe_token(self.current_token());
                msg.append(f.as_str());
                Err(msg)
            },
        }
    }

    fn parse_block(&mut self, fuel: u64) -> (r: Result<AstNode, String>)
        ensures
            final(self).toks() == old(self).toks(),
            match spec_parse_block(old(self).toks(), old(self).pos(), fuel as nat) {
                Ok((a, p)) => r matches Ok(node) && node@ == a && final(self).pos() == p,
                Err(m) => r matches Err(s) && s@ == m,
            },
        decreases fuel,
    {
        if fuel == 0 {
            return Err(str_to_string("Statement too deeply nested"));
        }
        self.consume(&Token::LeftCurly)?;
        let stmts = self.parse_block_items(fuel - 1)?;
        Ok(AstNode::Block(stmts))
    }

    #[verifier::rlimit(100)]
    #[verifier::spinoff_prover]
    fn parse_block_items(&mut self, fuel: u64) -> (r: Result<Vec<AstNode>, String>)
        ensures
            final(self).toks() == old(self).toks(),
            match spec_parse_block_items(old(self).toks(), old(self).pos(), fuel as nat) {
                Ok((ss, p)) => r matches Ok(nodes) && asts_view(nodes) == ss && final(self).pos()
                    == p,
                Err(m) => r matches Err(s) && s@ == m,
            },
        decreases fuel,
    {
        if fuel == 0 {
            return Err(str_to_string("Statement too deeply nested"));
        }
        let tok = self.current_token().clone();
        match tok {
            Token::RightCurly => {
                self.advance();
                let nodes: Vec<AstNode> = Vec::new();
                proof {
                    assert(asts_view(nodes) =~= Seq::<AstV>::empty());
                }
                Ok(nodes)
            },
            Token::Eof => {
                let mut msg = str_to_string("Expected RightCurly, but found ");
                let f = describe_token(self.current_token());
                msg.append(f.as_str());
                Err(msg)
            },
            Token::Semicolon => {
                self.advance();
                self.parse_block_items(fuel - 1)
            },
            _ => {
                let stmt = self.parse_statement_fuel(fuel - 1)?;
                let is_block = matches!(
                    stmt,
                    AstNode::IfStatement { .. } | AstNode::WhileStatement { .. }
                        | AstNode::FunctionDeclaration { .. }
                );
                proof {
                    assert(is_block == block_stmt_optional_semi(stmt@));
                }
                if is_block {
                    let semi = token_eq(self.current_token(), &Token::Semicolon);
                    if semi {
                        self.advance();
                    }
                } else {
                    let closing = token_eq(self.current_token(), &Token::RightCurly);
                    if !closing {
                        let semi = token_eq(self.current_token(), &Token::Semicolon);
                        if !semi {
                            let mut msg = str_to_string("Expected Semicolon or }, found ");
                            let f = describe_token(self.current_token());
                            msg.append(f.as_str());
                            return Err(msg);
                        }
                        self.advance();
                    }
                }
                let mut rest = self.parse_block_items(fuel - 1)?;
                rest.insert(0, stmt);
                proof {
                    assert(asts_view(rest) =~= seq![ast_view(rest@[0])] + asts_view(
                        rest,
                    ).drop_first());
                }
                Ok(rest)
            },
        }
    }

    fn parse_if_statement(&mut self, fuel: u64) -> (r: Result<AstNode, String>)
        ensures
            final(self).toks() == old(self).toks(),
            match spec_parse_if(old(self).toks(), old(self).pos(), fuel as nat) {
                Ok((a, p)) => r matches Ok(node) && node@ == a && final(self).pos() == p,
                Err(m) => r matches Err(s) && s@ == m,
            },
        decreases fuel,
    {
        if fuel == 0 {
            return Err(str_to_string("Statement too deeply nested"));
        }
        self.consume(&Token::If)?;
        let condition = self.parse_expression_fuel(fuel - 1)?;
        let consequence = self.parse_block(fuel - 1)?;
        let has_else = token_eq(self.current_token(), &Token::Else);
        let alternative = if has_else {
            self.advance();
            Some(Box::new(self.parse_block(fuel - 1)?))
        } else {
            None
        };
        Ok(
            AstNode::IfStatement {
                condition: Box::new(condition),
                consequence: Box::new(consequence),
                alternative,
            },
        )
    }

    fn parse_while_statement(&mut self, fuel: u64) -> (r: Result<AstNode, String>)
        ensures
            final(self).toks() == old(self).toks(),
            match spec_parse_while(old(self).toks(), old(self).pos(), fuel as nat) {
                Ok((a, p)) => r matches Ok(node) && node@ == a && final(self).pos() == p,
                Err(m) => r matches Err(s) && s@ == m,
            },
        decreases fuel,
    {
        if fuel == 0 {
            return Err(str_to_string("Statement too deeply nested"));
        }
        self.consume(&Token::While)?;
        let condition = self.parse_expression_fuel(fuel - 1)?;
        let body = self.parse_block(fuel - 1)?;
        Ok(AstNode::WhileStatement { condition: Box::new(condition), body: Box::new(body) })
    }

    #[verifier::rlimit(100)]
    #[verifier::spinoff_prover]
    fn parse_function_declaration(&mut self, fuel: u64) -> (r: Result<AstNode, String>)
        ensures
            final(self).toks() == old(self).toks(),
            match spec_parse_func(old(self).toks(), old(self).pos(), fuel as nat) {
                Ok((a, p)) => r matches Ok(node) && node@ == a && final(self).pos() == p,
                Err(m) => r matches Err(s) && s@ == m,
            },
        decreases fuel,
    {
        if fuel == 0 {
            return Err(str_to_string("Statement too deeply nested"));
        }
        self.consume(&Token::Func)?;
        let tok = self.current_token().clone();
        let name = match tok {
            Token::Identifier(id) => {
                self.advance();
                id
            },
            _ => {
                let mut msg = str_to_string("Expected identifier after 'func', found ");
                let f = describe_token(self.current_token());
                msg.append(f.as_str());
                return Err(msg);
            },
        };
        self.consume(&Token::LeftParen)?;
        let empty = token_eq(self.current_token(), &Token::RightParen);
        let ghost params_pos = self.pos();
        let params = if empty {
            Vec::new()
        } else {
            self.parse_params(fuel - 1)?
        };
        proof {
            if !empty {
                lemma_params_end_at_rparen(old(self).toks(), params_pos, (fuel - 1) as nat);
            }
        }
        proof {
            if empty {
                assert(Seq::new(params@.len(), |i: int| params@[i]@) =~= Seq::<Seq<char>>::empty());
            }
        }
        self.advance();
        let body = self.parse_block(fuel - 1)?;
        Ok(AstNode::FunctionDeclaration { name, params, body: Box::new(body) })
    }

    fn parse_params(&mut self, fuel: u64) -> (r: Result<Vec<String>, String>)
        ensures
            final(self).toks() == old(self).toks(),
            match spec_parse_params(old(self).toks(), old(self).pos(), fuel as nat) {
                Ok((ss, p)) => r matches Ok(names) && Seq::new(
                    names@.len(),
                    |i: int| names@[i]@,
                ) == ss && final(self).pos() == p,
                Err(m) => r matches Err(s) && s@ == m,
            },
        decreases fuel,
    {
        if fuel == 0 {
            return Err(str_to_string("Statement too deeply nested"));
        }
        let tok = self.current_token().clone();
        match tok {
            Token::Identifier(name) => {
                self.advance();
                let tok2 = self.current_token().clone();
                match tok2 {
                    Token::Comma => {
                        self.advance();
                        let mut rest = self.parse_params(fuel - 1)?;
                        rest.insert(0, name);
                        proof {
                            assert(Seq::new(rest@.len(), |i: int| rest@[i]@) =~= seq![rest@[0]@]
                                + Seq::new(rest@.len(), |i: int| rest@[i]@).drop_first());
                        }
                        Ok(rest)
                    },
                    Token::RightParen => {
                        let mut one: Vec<String> = Vec::new();
                        one.push(name);
                        proof {
                            assert(Seq::new(one@.len(), |i: int| one@[i]@) =~= seq![one@[0]@]);
                        }
                        Ok(one)
                    },
                    _ => {
                        let mut msg = str_to_string("Expected ',' or ')', found ");
                        let f = describe_token(self.current_token());
                        msg.append(f.as_str());
                        Err(msg)
                    },
                }
            },
            _ => {
                let mut msg = str_to_string("Expected parameter name, found ");
                let f = describe_token(self.current_token());
                msg.append(f.as_str());
                Err(msg)
            },
        }
    }

    fn parse_return_statement(&mut self, fuel: u64) -> (r: Result<AstNode, String>)
        ensures
            final(self).toks() == old(self).toks(),
            match spec_parse_return(old(self).toks(), old(self).pos(), fuel as nat) {
                Ok((a, p)) => r matches Ok(node) && node@ == a && final(self).pos() == p,
                Err(m) => r matches Err(s) && s@ == m,
            },
        decreases fuel,
    {
        if fuel == 0 {
            return Err(str_to_string("Statement too deeply nested"));
        }
        self.consume(&Token::Return)?;
        let semi = token_eq(self.current_token(), &Token::Semicolon);
        if semi {
            Ok(AstNode::Return(None))
        } else {
            let e = self.parse_expression_fuel(fuel - 1)?;
            Ok(AstNode::Return(Some(Box::new(e))))
        }
    }
}


/// Parses an incremental line: statements up to `Eof`, with semicolons
/// between and after them skipped rather than required. The interactive
/// entry point feeds each line through this rule.
pub open spec fn spec_parse_line(toks: Seq<TokenV>, pos: int, fuel: nat) -> Result<(Seq<AstV>, int), Seq<char>>
    decreases fuel,
{
    if fuel == 0 {
        Err("Program too deeply nested"@)
    } else if cur(toks, pos) is Eof {
        Ok((Seq::empty(), pos))
    } else if cur(toks, pos) is Semicolon {
        spec_parse_line(toks, pos + 1, (fuel - 1) as nat)
    } else {
        match spec_parse_statement(toks, pos, (fuel - 1) as nat) {
            Err(m) => Err(m),
            Ok((stmt, p1)) => match spec_parse_line(toks, p1, (fuel - 1) as nat) {
                Err(m) => Err(m),
                Ok((rest, p2)) => Ok((seq![stmt] + rest, p2)),
            },
        }
    }
}

impl Parser {
    /// Parses the statements of one incremental line, up to `Eof`.
    pub fn parse_line(&mut self) -> (r: Result<Vec<AstNode>, String>)
        ensures
            final(self).toks() == old(self).toks(),
            match spec_parse_line(old(self).toks(), old(self).pos(), u64::MAX as nat) {
                Ok((ss, p)) => r matches Ok(nodes) && asts_view(nodes) == ss && final(self).pos()
                    == p,
                Err(m) => r matches Err(s) && s@ == m,
            },
    {
        self.parse_line_items(u64::MAX)
    }

    #[verifier::rlimit(100)]
    fn parse_line_items(&mut self, fuel: u64) -> (r: Result<Vec<AstNode>, String>)
        ensures
            final(self).toks() == old(self).toks(),
            match spec_parse_line(old(self).toks(), old(self).pos(), fuel as nat) {
                Ok((ss, p)) => r matches Ok(nodes) && asts_view(nodes) == ss && final(self).pos()
                    == p,
                Err(m) => r matches Err(s) && s@ == m,
            },
        decreases fuel,
    {
        if fuel == 0 {
            return Err(str_to_string("Program too deeply nested"));
        }
        let tok = self.current_token().clone();
        match tok {
            Token::Eof => {
                let nodes: Vec<AstNode> = Vec::new();
                proof {
                    assert(asts_view(nodes) =~= Seq::<AstV>::empty());
                }
                Ok(nodes)
            },
            Token::Semicolon => {
                self.advance();
                self.parse_line_items(fuel - 1)
            },
            _ => {
                let stmt = self.parse_statement_fuel(fuel - 1)?;
                let mut rest = self.parse_line_items(fuel - 1)?;
                rest.insert(0, stmt);
                proof {
                    assert(asts_view(rest) =~= seq![ast_view(rest@[0])] + asts_view(
                        rest,
                    ).drop_first());
                }
                Ok(rest)
            },
        }
    }
}


/// Parsing `print N;`: the token sequence of a printed literal parses to a
/// one-statement program printing that literal.
pub proof fn lemma_parse_print_literal(n: i64)
    ensures
        spec_parse_program(
            seq![TokenV::Print, TokenV::Number(n), TokenV::Semicolon, TokenV::Eof],
            0,
            u64::MAX as nat,
        ) == Ok::<(AstV, int), Seq<char>>(
            (
                AstV::Program(seq![AstV::PrintStatement(Box::new(AstV::NumberLiteral(n)))]),
                3int,
            ),
        ),
{
    let toks = seq![TokenV::Print, TokenV::Number(n), TokenV::Semicolon, TokenV::Eof];
    let f0: nat = u64::MAX as nat;
    let f1 = (f0 - 1) as nat;
    let f2 = (f0 - 2) as nat;
    let f3 = (f0 - 3) as nat;
    let f4 = (f0 - 4) as nat;
    let f5 = (f0 - 5) as nat;
    let f6 = (f0 - 6) as nat;
    let f7 = (f0 - 7) as nat;
    let f8 = (f0 - 8) as nat;
    let f9 = (f0 - 9) as nat;
    let lit = AstV::NumberLiteral(n);
    let stmt = AstV::PrintStatement(Box::new(lit));
    assert(cur(toks, 0) == TokenV::Print);
    assert(cur(toks, 1) == TokenV::Number(n));
    assert(cur(toks, 2) == TokenV::Semicolon);
    assert(cur(toks, 3) == TokenV::Eof);
    assert(spec_parse_factor(toks, 1, f9) == Ok::<(AstV, int), Seq<char>>((lit, 2int)));
    assert(spec_parse_product_tail(toks, lit, 2, f9) == Ok::<(AstV, int), Seq<char>>(
        (lit, 2int),
    ));
    assert(spec_parse_product(toks, 1, f8) == Ok::<(AstV, int), Seq<char>>((lit, 2int)));
    assert(spec_parse_sum_tail(toks, lit, 2, f8) == Ok::<(AstV, int), Seq<char>>((lit, 2int)));
    assert(spec_parse_sum(toks, 1, f7) == Ok::<(AstV, int), Seq<char>>((lit, 2int)));
    assert(spec_parse_comparison_tail(toks, lit, 2, f7) == Ok::<(AstV, int), Seq<char>>(
        (lit, 2int),
    ));
    assert(spec_parse_comparison(toks, 1, f6) == Ok::<(AstV, int), Seq<char>>((lit, 2int)));
    assert(spec_parse_and_tail(toks, lit, 2, f6) == Ok::<(AstV, int), Seq<char>>((lit, 2int)));
    assert(spec_parse_and(toks, 1, f5) == Ok::<(AstV, int), Seq<char>>((lit, 2int)));
    assert(spec_parse_or_tail(toks, lit, 2, f5) == Ok::<(AstV, int), Seq<char>>((lit, 2int)));
    assert(spec_parse_or(toks, 1, f4) == Ok::<(AstV, int), Seq<char>>((lit, 2int)));
    assert(spec_parse_expression(toks, 1, f3) == Ok::<(AstV, int), Seq<char>>((lit, 2int)));
    assert(spec_parse_statement(toks, 0, f2) == Ok::<(AstV, int), Seq<char>>((stmt, 2int)));
    assert(!ends_in_block(stmt));
    assert(spec_parse_program_items(toks, 3, f2) == Ok::<(Seq<AstV>, int), Seq<char>>(
        (Seq::empty(), 3int),
    ));
    assert(spec_parse_program_items(toks, 0, f1) == Ok::<(Seq<AstV>, int), Seq<char>>(
        (seq![stmt] + Seq::empty(), 3int),
    ));
    assert(seq![stmt] + Seq::<AstV>::empty() =~= seq![stmt]);
    assert(spec_parse_program(toks, 0, f0) == Ok::<(AstV, int), Seq<char>>(
        (AstV::Program(seq![stmt]), 3int),
    ));
}

} // verus!
